use investigator::link::{
    create_report_email_link, CreateReportDialogInit, ProblemReportDialogInit, SUPPORT_EMAIL,
};
use investigator::names::{create_problem_report_file_name, create_report_file_name};

#[test]
fn email_link_escapes_subject_and_body() {
    assert_eq!(
        create_report_email_link("My App"),
        "<a href=\"mailto:support@x-software.com?subject=Problem%20report%20file%20for%20My%20App&amp;body=Hello%20X-Software%20Support%2C%0A%0A%0AI%20would%20like%20get%20assistance%20for%20My%20App.%0A%0AThanks%21\">support@x-software.com</a>"
    );
}

#[test]
fn email_link_keeps_unreserved_bytes() {
    let link = create_report_email_link("a-b_c.d~e09AZ");
    assert!(link.contains("subject=Problem%20report%20file%20for%20a-b_c.d~e09AZ&amp;"));
    assert!(link.contains("for%20a-b_c.d~e09AZ.%0A%0AThanks%21"));
}

#[test]
fn email_link_escapes_bytes_beyond_ascii() {
    let link = create_report_email_link("\u{c4}\u{20ac}/?");
    assert!(link.contains("for%20%C3%84%E2%82%AC%2F%3F&amp;body="));
}

#[test]
fn email_link_names_the_support_address_twice() {
    let link = create_report_email_link("");
    assert!(link.starts_with(&format!("<a href=\"mailto:{}?subject=", SUPPORT_EMAIL)));
    assert!(link.ends_with(&format!("\">{}</a>", SUPPORT_EMAIL)));
    assert!(link.contains("subject=Problem%20report%20file%20for%20&amp;body="));
}

#[test]
fn dialogs_name_their_archives_after_the_binary() {
    let create = CreateReportDialogInit { app_name: "Viewer", binary_name: "viewer" };
    let problem = ProblemReportDialogInit { app_name: "Viewer", binary_name: "viewer" };
    assert_eq!(create_report_file_name(create.binary_name), "viewer_report.zip");
    assert_eq!(create_problem_report_file_name(problem.binary_name), "viewer_problem_report.zip");
    assert_eq!(create.app_name, problem.app_name);
}
