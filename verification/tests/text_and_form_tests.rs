use squire::compiler::{Compiler, Error, FormMemberKind, Globals};
use squire::ast::{Journey, Arguments, Statements};
use squire::form::FormBuilder;
use squire::text::{from_fraktur, is_fraktur, str_eq, to_fraktur, Text};

#[test]
fn fraktur_mapping_round_trips() {
    assert_eq!(to_fraktur('A'), Some('𝔄'));
    assert_eq!(to_fraktur('z'), Some('𝔷'));
    assert_eq!(to_fraktur('C'), Some('ℭ'));
    assert_eq!(to_fraktur('1'), None);
    assert_eq!(from_fraktur('𝔄'), Some('A'));
    assert_eq!(from_fraktur('ℜ'), Some('R'));
    assert_eq!(from_fraktur('x'), None);
    for c in 'a'..='z' {
        assert_eq!(from_fraktur(to_fraktur(c).unwrap()), Some(c));
    }
    for c in 'A'..='Z' {
        assert_eq!(from_fraktur(to_fraktur(c).unwrap()), Some(c));
    }
}

#[test]
fn is_fraktur_matches_the_letter_set() {
    assert!(is_fraktur('𝔞'));
    assert!(is_fraktur('ℨ'));
    assert!(!is_fraktur('a'));
    assert!(!is_fraktur(' '));
}

#[test]
fn text_basics() {
    let t = Text::new(String::from("hello"));
    assert!(!t.is_empty());
    assert_eq!(t.as_str(), "hello");
    assert!(Text::new(String::new()).is_empty());
    let f = Text::new_fraktur(String::from("𝔥𝔦"));
    assert_eq!(f.as_str(), "𝔥𝔦");
}

#[test]
fn char_at_counts_from_either_end() {
    let t = Text::new(String::from("abc"));
    assert_eq!(t.char_at(0), Some('a'));
    assert_eq!(t.char_at(2), Some('c'));
    assert_eq!(t.char_at(3), None);
    assert_eq!(t.char_at(-1), Some('c'));
    assert_eq!(t.char_at(-3), Some('a'));
    assert_eq!(t.char_at(-4), None);
}

#[test]
fn str_eq_compares_characters() {
    assert!(str_eq("", ""));
    assert!(str_eq("𝔞b", "𝔞b"));
    assert!(!str_eq("ab", "a"));
    assert!(!str_eq("ab", "ac"));
}

fn journey(name: &str) -> squire::value::UserDefined {
    let j = Journey {
        name: String::from(name),
        args: Arguments { normal: Vec::new(), vararg: None, varkwarg: None, return_type: None },
        body: Statements(Vec::new()),
    };
    let (_, built) = j.build_journey(Globals::new(), false);
    built.unwrap()
}

#[test]
fn form_members_are_single_declaration() {
    let mut b = FormBuilder::new();
    b.add_recall(journey("area")).unwrap();
    b.add_essence(String::from("sides")).unwrap();
    // a class-level name may not repeat across recalls and essences
    assert_eq!(
        b.add_recall(journey("sides")),
        Err(Error::FormValueAlreadyDefined {
            name: String::from("sides"),
            kind: FormMemberKind::Recall,
        })
    );
    assert_eq!(
        b.add_essence(String::from("area")),
        Err(Error::FormValueAlreadyDefined {
            name: String::from("area"),
            kind: FormMemberKind::Essence,
        })
    );
    // instance-level names live in their own namespace
    b.add_change(journey("area")).unwrap();
    b.add_matter(String::from("width")).unwrap();
    assert_eq!(
        b.add_matter(String::from("area")),
        Err(Error::FormValueAlreadyDefined {
            name: String::from("area"),
            kind: FormMemberKind::Matter,
        })
    );
    assert_eq!(
        b.add_change(journey("width")),
        Err(Error::FormValueAlreadyDefined {
            name: String::from("width"),
            kind: FormMemberKind::Change,
        })
    );
    let _ = b.build();
}

#[test]
fn form_constructor_is_set_at_most_once() {
    let mut b = FormBuilder::new();
    b.add_imitate(journey("imitate")).unwrap();
    assert_eq!(
        b.add_imitate(journey("imitate")),
        Err(Error::FormValueAlreadyDefined {
            name: String::from("imitate"),
            kind: FormMemberKind::Imitate,
        })
    );
}

#[test]
fn form_parents_accumulate() {
    let parent = FormBuilder::new().build();
    let mut b = FormBuilder::new();
    b.add_parent(parent);
    let mut c = Compiler::new();
    let _ = c.next_target();
    let _ = b.build();
}
