//! Identities of ranked items.

use vstd::prelude::*;

use crate::text::{decimal, push_decimal};

verus! {

/// The mathematical value of a [`GameId`]: the tag and its payload.
pub enum GameIdView {
    Igdb(u32),
    Other(Seq<char>),
    Absent,
}

/// Identity of a ranked item: a numeric catalog id, an opaque id of another
/// source, or no id at all.
#[derive(Debug, Hash)]
pub enum GameId {
    Igdb(u32),
    Other(String),
    Absent,
}

impl View for GameId {
    type V = GameIdView;

    open spec fn view(&self) -> GameIdView {
        match self {
            GameId::Igdb(n) => GameIdView::Igdb(*n),
            GameId::Other(s) => GameIdView::Other(s@),
            GameId::Absent => GameIdView::Absent,
        }
    }
}

impl PartialEq for GameId {
    fn eq(&self, other: &GameId) -> (r: bool)
        ensures
            r == (self@ == other@),
    {
        match self {
            GameId::Igdb(a) => match other {
                GameId::Igdb(b) => *a == *b,
                _ => false,
            },
            GameId::Other(a) => match other {
                GameId::Other(b) => a.eq(b),
                _ => false,
            },
            GameId::Absent => match other {
                GameId::Absent => true,
                _ => false,
            },
        }
    }
}

impl vstd::std_specs::cmp::PartialEqSpecImpl for GameId {
    open spec fn obeys_eq_spec() -> bool {
        true
    }

    open spec fn eq_spec(&self, other: &GameId) -> bool {
        self@ == other@
    }
}

impl Eq for GameId {
}

impl Clone for GameId {
    fn clone(&self) -> (r: GameId)
        ensures
            r@ == self@,
    {
        match self {
            GameId::Igdb(n) => GameId::Igdb(*n),
            GameId::Other(s) => GameId::Other(s.clone()),
            GameId::Absent => GameId::Absent,
        }
    }
}

/// How an identity is written: a catalog id in decimal, another id as it
/// is, no id as nothing.
pub open spec fn id_text(id: GameIdView) -> Seq<char> {
    match id {
        GameIdView::Igdb(n) => decimal(n as nat),
        GameIdView::Other(s) => s,
        GameIdView::Absent => Seq::empty(),
    }
}

impl GameId {
    /// The identity as text: a catalog id in decimal, another id as it is,
    /// no id as the empty string.
    pub fn to_string(&self) -> (r: String)
        ensures
            r@ == id_text(self@),
    {
        match self {
            GameId::Igdb(n) => {
                let mut s = String::new();
                push_decimal(&mut s, *n as u64);
                proof {
                    assert(s@ =~= decimal(*n as nat));
                }
                s
            },
            GameId::Other(s) => s.clone(),
            GameId::Absent => String::new(),
        }
    }
}

} // verus!
