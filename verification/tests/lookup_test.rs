use burngate::config::{CheckMode, Config, Environment};
use burngate::lookup::{is_yes, LookupStep, MailboxLookup, Probe};

fn lookup(mode: &str, set_name: &str, pattern: &str) -> MailboxLookup {
    let mut env = Environment::empty();
    env.accepted_domains = Some("tempy.email".to_string());
    env.redis_check_mode = Some(mode.to_string());
    env.redis_set_name = Some(set_name.to_string());
    env.redis_key_pattern = Some(pattern.to_string());
    MailboxLookup::new(&Config::from_vars(&env).unwrap())
}

fn ask_key(key: &str) -> LookupStep {
    LookupStep::Ask(Probe::Key(key.to_string()))
}

fn ask_set(set: &str, element: &str) -> LookupStep {
    LookupStep::Ask(Probe::Member { set: set.to_string(), element: element.to_string() })
}

#[test]
fn key_for_substitutes_the_lowercased_address() {
    let l = lookup("both", "addresses", "mb:{address}");
    assert_eq!(l.key_for("Alice@Tempy.Email"), "mb:alice@tempy.email");
    let l = lookup("both", "addresses", "{address}/{address}!");
    assert_eq!(l.key_for("A@b"), "a@b/a@b!");
    let l = lookup("both", "addresses", "plain");
    assert_eq!(l.key_for("a@b"), "plain");
    let l = lookup("both", "addresses", "{{address}{addres");
    assert_eq!(l.key_for("x"), "{x{addres");
}

#[test]
fn key_only_asks_the_key_and_nothing_else() {
    let l = lookup("key", "addresses", "mb:{address}");
    assert_eq!(l.start("A@b.c"), ask_key("mb:a@b.c"));
    assert_eq!(l.after_key("A@b.c", Some(true)), LookupStep::Decided(true));
    assert_eq!(l.after_key("A@b.c", Some(false)), LookupStep::Decided(false));
    assert_eq!(l.after_key("A@b.c", None), LookupStep::Decided(false));
}

#[test]
fn set_only_asks_the_set() {
    let l = lookup("set", "known", "mb:{address}");
    assert_eq!(l.start("A@b.c"), ask_set("known", "a@b.c"));
    assert!(l.after_set(Some(true)));
    assert!(!l.after_set(Some(false)));
    assert!(!l.after_set(None));
}

#[test]
fn set_only_without_a_set_refuses() {
    let l = lookup("set_only", "", "mb:{address}");
    assert_eq!(l.start("a@b.c"), LookupStep::Decided(false));
}

#[test]
fn both_falls_back_to_the_set() {
    let l = lookup("both", "known", "mb:{address}");
    assert_eq!(l.start("a@b.c"), ask_key("mb:a@b.c"));
    assert_eq!(l.after_key("a@b.c", Some(true)), LookupStep::Decided(true));
    assert_eq!(l.after_key("A@b.c", Some(false)), ask_set("known", "a@b.c"));
    assert_eq!(l.after_key("a@b.c", None), ask_set("known", "a@b.c"));
}

#[test]
fn both_without_a_set_stops_at_the_key() {
    let l = lookup("both", "", "mb:{address}");
    assert_eq!(l.after_key("a@b.c", Some(false)), LookupStep::Decided(false));
    assert_eq!(l.after_key("a@b.c", Some(true)), LookupStep::Decided(true));
}

#[test]
fn should_accept_decides_by_mode() {
    let answers = [Some(true), Some(false), None];
    for key in answers {
        for member in answers {
            let k = key == Some(true);
            let m = member == Some(true);
            assert_eq!(lookup("key", "known", "p").should_accept(key, member), k);
            assert_eq!(lookup("set", "known", "p").should_accept(key, member), m);
            assert_eq!(lookup("set", "", "p").should_accept(key, member), false);
            assert_eq!(lookup("both", "known", "p").should_accept(key, member), k || m);
            assert_eq!(lookup("both", "", "p").should_accept(key, member), k);
        }
    }
}

#[test]
fn following_the_plan_decides_what_should_accept_says() {
    let answers = [Some(true), Some(false), None];
    for mode in ["key", "set", "both"] {
        for set in ["known", ""] {
            for key in answers {
                for member in answers {
                    let l = lookup(mode, set, "mb:{address}");
                    let mut step = l.start("a@b.c");
                    if let LookupStep::Ask(Probe::Key(_)) = step {
                        step = l.after_key("a@b.c", key);
                    }
                    let decided = match step {
                        LookupStep::Decided(d) => d,
                        LookupStep::Ask(Probe::Member { .. }) => l.after_set(member),
                        LookupStep::Ask(Probe::Key(_)) => unreachable!(),
                    };
                    assert_eq!(decided, l.should_accept(key, member));
                }
            }
        }
    }
}

#[test]
fn an_error_is_a_no() {
    assert!(is_yes(Some(true)));
    assert!(!is_yes(Some(false)));
    assert!(!is_yes(None));
}

#[test]
fn check_mode_names() {
    assert_eq!(CheckMode::from_name("key"), CheckMode::KeyOnly);
    assert_eq!(CheckMode::from_name("key_only"), CheckMode::KeyOnly);
    assert_eq!(CheckMode::from_name("set"), CheckMode::SetOnly);
    assert_eq!(CheckMode::from_name("set_only"), CheckMode::SetOnly);
    assert_eq!(CheckMode::from_name("both"), CheckMode::Both);
    assert_eq!(CheckMode::from_name(""), CheckMode::Both);
    assert_eq!(CheckMode::from_name("KEY"), CheckMode::Both);
    assert_eq!(CheckMode::from_name("keys"), CheckMode::Both);
}
