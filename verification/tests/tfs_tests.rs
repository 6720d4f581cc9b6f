use pw_mover::config::{get_config, init_config, Config, ConfigCell, Settings};
use pw_mover::tfs::{simplify_steps, strip_html, ParameterizedString, StepRaw, StepsRaw};

fn text(value: &str) -> ParameterizedString {
    ParameterizedString { value: value.to_string() }
}

#[test]
fn strip_html_removes_complete_tags() {
    assert_eq!(strip_html("<b>hi</b>"), "hi");
    assert_eq!(strip_html("click <a href=\"x\">here</a>."), "click here.");
    assert_eq!(strip_html("plain"), "plain");
    assert_eq!(strip_html(""), "");
}

#[test]
fn strip_html_keeps_an_unclosed_bracket() {
    assert_eq!(strip_html("a<b"), "a<b");
    assert_eq!(strip_html("x<y>z<"), "xz<");
    assert_eq!(strip_html("1 < 2 but > 0"), "1  0");
}

#[test]
fn strip_html_drops_spans_leftmost_first() {
    // the span runs from the first '<' to the first '>' after it
    assert_eq!(strip_html("<<b>>"), ">");
    assert_eq!(strip_html("a<b<c>d"), "ad");
}

#[test]
fn strip_html_decodes_references_before_stripping() {
    // decoding turns the references into a real tag, which is then dropped;
    // if decoding returned its input unchanged this would keep the text
    assert_eq!(strip_html("a&lt;b&gt;c"), "ac");
    assert_eq!(strip_html("&amp;"), "&");
    assert_eq!(strip_html("<i>&#65;</i>"), "A");
}

#[test]
fn simplify_steps_takes_action_and_expected() {
    let raw = StepsRaw {
        steps: vec![
            StepRaw {
                step_type: "ActionStep".to_string(),
                texts: vec![text("<p>open page</p>"), text("<p>it &amp; loads</p>")],
            },
            StepRaw { step_type: "ActionStep".to_string(), texts: vec![text("only action")] },
            StepRaw { step_type: "ActionStep".to_string(), texts: vec![] },
        ],
    };
    let simplified = simplify_steps(&raw);
    assert_eq!(simplified.len(), 3);
    assert_eq!(simplified[0].step, "open page");
    assert_eq!(simplified[0].expected, "it & loads");
    assert_eq!(simplified[1].step, "only action");
    assert_eq!(simplified[1].expected, "");
    assert_eq!(simplified[2].step, "");
    assert_eq!(simplified[2].expected, "");
}

#[test]
fn config_round_trip() {
    let mut cell = ConfigCell::empty();
    init_config(
        &mut cell,
        Config {
            settings: Settings {
                server_url: "https://tracker.example".to_string(),
                org: "org".to_string(),
                project: "proj".to_string(),
                pat_token: "pat".to_string(),
            },
        },
    );
    let cfg = get_config(&cell);
    assert_eq!(cfg.settings.server_url, "https://tracker.example");
    assert_eq!(cfg.settings.org, "org");
    assert_eq!(cfg.settings.project, "proj");
}
