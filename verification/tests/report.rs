use cargo_embed::report::{render_error, render_report};

#[test]
fn first_line_carries_the_label() {
    colored::control::set_override(false);
    assert_eq!(
        render_error("failed attaching to target\n\nCaused by:\n    no answer"),
        "       Error failed attaching to target\n\
         \x20            \n\
         \x20            Caused by:\n\
         \x20                no answer\n"
    );
}

#[test]
fn an_empty_error_has_no_lines() {
    colored::control::set_override(false);
    assert_eq!(render_error(""), "");
}

#[test]
fn the_width_of_a_painted_label_does_not_count() {
    assert_eq!(
        render_report("<b>Error</b>", "a\r\nb"),
        "       <b>Error</b> a\n             b\n"
    );
}

#[test]
fn one_line_of_report_for_each_line_of_error() {
    colored::control::set_override(false);
    for error in ["x", "x\n", "x\ny", "x\n\n\ny\r\nz"] {
        let report = render_error(error);
        assert_eq!(report.lines().count(), error.lines().count());
        for (line, part) in report.lines().zip(error.lines()) {
            assert_eq!(&line[13..], part);
        }
    }
}
