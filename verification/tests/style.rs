use cargo_embed::report::render_error;
use cargo_embed::style::{error_label, Status};

fn statuses() -> Vec<Status> {
    vec![
        Status::Config("default".to_string()),
        Status::Target("target/debug/blinky".to_string()),
        Status::GdbListening("127.0.0.1:1337".to_string()),
        Status::Done("default".to_string()),
        Status::HaltOptionMoved,
    ]
}

#[test]
fn labels_in_colour() {
    colored::control::set_override(true);
    assert_eq!(error_label(), "\x1b[1;31mError\x1b[0m");
    assert_eq!(
        render_error("a\nb"),
        "       \x1b[1;31mError\x1b[0m a\n             b\n"
    );
    let lines: Vec<String> = statuses().iter().map(|status| status.render()).collect();
    assert_eq!(
        lines,
        vec![
            "      \x1b[1;32mConfig\x1b[0m default",
            "      \x1b[1;32mTarget\x1b[0m target/debug/blinky",
            "    \x1b[1;32mGDB stub\x1b[0m listening at 127.0.0.1:1337",
            "        \x1b[1;32mDone\x1b[0m processing config default",
            "     \x1b[1;33mWarning\x1b[0m The 'flashing.halt_afterwards' option in the config has moved to the 'reset' section",
        ]
    );
}

#[test]
fn a_painted_label_is_put_in_place() {
    let lines: Vec<String> = statuses().iter().map(|status| status.render_with("*")).collect();
    assert_eq!(
        lines,
        vec![
            "      * default",
            "      * target/debug/blinky",
            "    * listening at 127.0.0.1:1337",
            "        * processing config default",
            "     * The 'flashing.halt_afterwards' option in the config has moved to the 'reset' section",
        ]
    );
}
