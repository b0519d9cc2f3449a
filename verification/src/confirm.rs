//! The confirm dialog. A type-the-name confirm over marked rows cannot ask for seven names, so
//! it asks for one deliberate phrase instead.

use vstd::prelude::*;
use crate::ascii::{chars_of, concat, decimal, decimal_string, string_of};
use crate::catalog::{strings_view, opt_view};
use crate::key::Key;

verus! {

/// How an action is confirmed.
#[derive(Debug, Clone, Copy, PartialEq, Eq, Structural)]
pub enum ConfirmKind {
    /// `y` runs it; anything else cancels.
    Yes,
    /// The affected row's name, or `DELETE n` for several, has to be typed.
    TypeName,
}

/// What a key did, for the app to act on.
#[derive(Debug, Clone, Copy, PartialEq, Eq, Structural)]
pub enum Event {
    Run,
    Cancelled,
    Typed,
    Mismatch,
    Ignored,
}

pub struct Confirm {
    pub prompt: String,
    /// The first five names, for a bulk confirm; empty for one row, whose name the prompt
    /// already carries.
    pub names: Vec<String>,
    pub more: usize,
    /// `None` for a yes/no confirm; the literal to match for a type-name one.
    pub expect: Option<String>,
    pub input: String,
}

/// The affected rows a bulk confirm lists by name before it says how many more there are.
pub const LISTED: usize = 5;

/// What is being confirmed: the one row's name, or `n Display`.
pub open spec fn subject_spec(display: Seq<char>, names: Seq<Seq<char>>) -> Seq<char> {
    if names.len() == 1 {
        names[0]
    } else {
        decimal(names.len()) + seq![' '] + display
    }
}

/// What a type-name confirm asks for: the one row's name, or `DELETE n`.
pub open spec fn expect_spec(kind: ConfirmKind, names: Seq<Seq<char>>) -> Option<Seq<char>> {
    match kind {
        ConfirmKind::TypeName => if names.len() == 1 {
            Some(names[0])
        } else {
            Some(seq!['D', 'E', 'L', 'E', 'T', 'E', ' '] + decimal(names.len()))
        },
        ConfirmKind::Yes => None,
    }
}

/// The question the dialog asks.
pub open spec fn prompt_spec(kind: ConfirmKind, label: Seq<char>, display: Seq<char>, names: Seq<Seq<char>>) -> Seq<char> {
    let subject = subject_spec(display, names);
    match expect_spec(kind, names) {
        None => label + seq![' '] + subject + seq!['?', ' ', '[', 'y', '/', 'N', ']'],
        Some(what) => if names.len() == 1 {
            label + seq![' '] + subject + seq!['.', ' ', 'T', 'y', 'p', 'e', ' ', 't', 'h', 'e', ' ', 'n', 'a', 'm', 'e', ' ', 't', 'o', ' ', 'c', 'o', 'n', 'f', 'i', 'r', 'm', ':']
        } else {
            label + seq![' '] + subject + seq!['.', ' ', 'T', 'y', 'p', 'e', ' '] + what + seq![' ', 't', 'o', ' ', 'c', 'o', 'n', 'f', 'i', 'r', 'm', ':']
        },
    }
}

impl Confirm {
    /// `label` is the action's title, `names` every affected row in table order.
    pub fn open(kind: ConfirmKind, label: &str, display: &str, names: &[String]) -> (r: Confirm)
        ensures
            r.prompt@ == prompt_spec(kind, label@, display@, strings_view(names@)),
            opt_view(r.expect) == expect_spec(kind, strings_view(names@)),
            names@.len() == 1 ==> r.names@.len() == 0,
            names@.len() != 1 ==> strings_view(r.names@) == strings_view(names@).take(
                if names@.len() < LISTED { names@.len() as int } else { LISTED as int },
            ),
            r.more == if names@.len() > LISTED { names@.len() - LISTED } else { 0 },
            r.input@.len() == 0,
    {
        let ghost nv = strings_view(names@);
        let one = names.len() == 1;
        let count = decimal_string(names.len() as u64);
        let subject = if one {
            names[0].clone()
        } else {
            let with_space = concat(count.as_str(), " ");
            concat(with_space.as_str(), display)
        };
        proof {
            reveal_strlit(" ");
            assert(subject@ == subject_spec(display@, nv));
        }
        let expect = match kind {
            ConfirmKind::TypeName => if one {
                Some(names[0].clone())
            } else {
                Some(concat("DELETE ", count.as_str()))
            },
            ConfirmKind::Yes => None,
        };
        proof {
            reveal_strlit("DELETE ");
            assert(opt_view(expect) == expect_spec(kind, nv));
        }
        let head = concat(concat(label, " ").as_str(), subject.as_str());
        let prompt = match &expect {
            None => concat(head.as_str(), "? [y/N]"),
            Some(what) => if one {
                concat(head.as_str(), ". Type the name to confirm:")
            } else {
                concat(concat(concat(head.as_str(), ". Type ").as_str(), what.as_str()).as_str(), " to confirm:")
            },
        };
        proof {
            reveal_strlit("? [y/N]");
            reveal_strlit(". Type the name to confirm:");
            reveal_strlit(". Type ");
            reveal_strlit(" to confirm:");
            assert(prompt@ =~= prompt_spec(kind, label@, display@, nv));
        }
        let mut listed: Vec<String> = Vec::new();
        if !one {
            let mut i: usize = 0;
            while i < names.len() && i < LISTED
                invariant
                    i <= names@.len(),
                    i <= LISTED,
                    strings_view(listed@) == nv.take(i as int),
                    nv == strings_view(names@),
                decreases LISTED - i,
            {
                let ghost before = listed@;
                listed.push(names[i].clone());
                proof {
                    assert(strings_view(listed@) =~= strings_view(before).push(names@[i as int]@));
                    assert(nv.take(i + 1) =~= nv.take(i as int).push(nv[i as int]));
                }
                i = i + 1;
            }
        }
        let more = if names.len() > LISTED { names.len() - LISTED } else { 0 };
        Confirm { prompt, names: listed, more, expect, input: String::new() }
    }

    /// `y` runs a yes/no confirm and anything else cancels it, so a hand on the wrong key never
    /// powers a machine off. A type-name confirm collects characters, and `enter` runs it only
    /// when what was typed is exactly what it asks for.
    pub fn key(&mut self, key: Key) -> (r: Event)
        ensures
            final(self).prompt == old(self).prompt,
            final(self).names == old(self).names,
            final(self).more == old(self).more,
            final(self).expect == old(self).expect,
            ({
                let typed = old(self).input@;
                match old(self).expect {
                    None => {
                        &&& final(self).input == old(self).input
                        &&& r == if key == Key::Char('y') || key == Key::Char('Y') { Event::Run } else { Event::Cancelled }
                    },
                    Some(want) => match key {
                        Key::Esc => r == Event::Cancelled && final(self).input == old(self).input,
                        Key::Enter => final(self).input == old(self).input && r == if typed == want@ { Event::Run } else { Event::Mismatch },
                        Key::Char(c) => r == Event::Typed && final(self).input@ == typed.push(c),
                        Key::Backspace => r == Event::Typed && final(self).input@ == if typed.len() > 0 { typed.drop_last() } else { typed },
                        _ => r == Event::Ignored && final(self).input == old(self).input,
                    },
                }
            }),
    {
        match &self.expect {
            None => {
                if key == Key::Char('y') || key == Key::Char('Y') {
                    Event::Run
                } else {
                    Event::Cancelled
                }
            },
            Some(want) => match key {
                Key::Esc => Event::Cancelled,
                Key::Enter => {
                    if crate::ascii::str_eq(self.input.as_str(), want.as_str()) {
                        Event::Run
                    } else {
                        Event::Mismatch
                    }
                },
                Key::Char(c) => {
                    crate::ascii::push_char(&mut self.input, c);
                    Event::Typed
                },
                Key::Backspace => {
                    let chars = chars_of(self.input.as_str());
                    if chars.len() > 0 {
                        let kept = crate::ascii::slice_chars(chars.as_slice(), 0, chars.len() - 1);
                        self.input = string_of(kept.as_slice());
                        proof {
                            assert(kept@ =~= chars@.drop_last());
                        }
                    }
                    Event::Typed
                },
                _ => Event::Ignored,
            },
        }
    }
}

} // verus!
