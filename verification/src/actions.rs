use vstd::prelude::*;

use crate::keys::{BaseKey, Key};

verus! {

/// A discrete game action a key press can request.
#[derive(Clone, Copy, PartialEq, Eq, Structural, Debug)]
pub enum Action {
    Quit,
    RotateLeft,
    RotateRight,
    ShiftLeft,
    ShiftRight,
    SoftDrop,
    HardDrop,
    Hold,
}

/// All actions in their fixed presentation order.
pub open spec fn all_actions() -> Seq<Action> {
    seq![
        Action::Quit,
        Action::RotateLeft,
        Action::RotateRight,
        Action::ShiftLeft,
        Action::ShiftRight,
        Action::SoftDrop,
        Action::HardDrop,
        Action::Hold,
    ]
}

impl Action {
    /// The key bindings of this action.
    pub open spec fn keys_spec(self) -> Seq<Key> {
        match self {
            Action::Quit => seq![Key::Ctrl(BaseKey::Char('c'))],
            Action::RotateLeft => seq![
                Key::Plain(BaseKey::Char('q')),
                Key::Plain(BaseKey::Char(',')),
            ],
            Action::RotateRight => seq![Key::Plain(BaseKey::Char('e')), Key::Plain(BaseKey::Up)],
            Action::ShiftLeft => seq![Key::Plain(BaseKey::Char('a')), Key::Plain(BaseKey::Left)],
            Action::ShiftRight => seq![Key::Plain(BaseKey::Char('d')), Key::Plain(BaseKey::Right)],
            Action::SoftDrop => seq![Key::Plain(BaseKey::Char('s')), Key::Plain(BaseKey::Down)],
            Action::HardDrop => seq![Key::Plain(BaseKey::Char(' '))],
            Action::Hold => seq![Key::Plain(BaseKey::Char('c'))],
        }
    }

    /// Every available action, in presentation order.
    pub fn iterator() -> (v: Vec<Action>)
        ensures
            v@ == all_actions(),
    {
        let mut v: Vec<Action> = Vec::new();
        v.push(Action::Quit);
        v.push(Action::RotateLeft);
        v.push(Action::RotateRight);
        v.push(Action::ShiftLeft);
        v.push(Action::ShiftRight);
        v.push(Action::SoftDrop);
        v.push(Action::HardDrop);
        v.push(Action::Hold);
        proof {
            assert(v@ =~= all_actions());
        }
        v
    }

    /// The keys bound to this action.
    pub fn keys(&self) -> (v: Vec<Key>)
        ensures
            v@ == self.keys_spec(),
    {
        let mut v: Vec<Key> = Vec::new();
        match self {
            Action::Quit => {
                v.push(Key::Ctrl(BaseKey::Char('c')));
            },
            Action::RotateLeft => {
                v.push(Key::Plain(BaseKey::Char('q')));
                v.push(Key::Plain(BaseKey::Char(',')));
            },
            Action::RotateRight => {
                v.push(Key::Plain(BaseKey::Char('e')));
                v.push(Key::Plain(BaseKey::Up));
            },
            Action::ShiftLeft => {
                v.push(Key::Plain(BaseKey::Char('a')));
                v.push(Key::Plain(BaseKey::Left));
            },
            Action::ShiftRight => {
                v.push(Key::Plain(BaseKey::Char('d')));
                v.push(Key::Plain(BaseKey::Right));
            },
            Action::SoftDrop => {
                v.push(Key::Plain(BaseKey::Char('s')));
                v.push(Key::Plain(BaseKey::Down));
            },
            Action::HardDrop => {
                v.push(Key::Plain(BaseKey::Char(' ')));
            },
            Action::Hold => {
                v.push(Key::Plain(BaseKey::Char('c')));
            },
        }
        proof {
            assert(v@ =~= self.keys_spec());
        }
        v
    }
}

/// The action a key requests, if any: the first action in presentation
/// order that lists the key among its bindings.
pub open spec fn key_action(key: Key) -> Option<Action> {
    if Action::Quit.keys_spec().contains(key) {
        Option::Some(Action::Quit)
    } else if Action::RotateLeft.keys_spec().contains(key) {
        Option::Some(Action::RotateLeft)
    } else if Action::RotateRight.keys_spec().contains(key) {
        Option::Some(Action::RotateRight)
    } else if Action::ShiftLeft.keys_spec().contains(key) {
        Option::Some(Action::ShiftLeft)
    } else if Action::ShiftRight.keys_spec().contains(key) {
        Option::Some(Action::ShiftRight)
    } else if Action::SoftDrop.keys_spec().contains(key) {
        Option::Some(Action::SoftDrop)
    } else if Action::HardDrop.keys_spec().contains(key) {
        Option::Some(Action::HardDrop)
    } else if Action::Hold.keys_spec().contains(key) {
        Option::Some(Action::Hold)
    } else {
        Option::None
    }
}

/// The configured action table.
#[derive(Debug)]
pub struct Actions(pub Vec<Action>);

impl Actions {
    /// The action bound to a key, searching the fixed bindings in
    /// presentation order.
    pub fn find(&self, key: Key) -> (r: Option<Action>)
        ensures
            r == key_action(key),
    {
        let all = Action::iterator();
        let mut idx: usize = 0;
        while idx < all.len()
            invariant
                all@ == all_actions(),
                idx <= all@.len(),
                forall|m: int| 0 <= m < idx ==> !(#[trigger] all@[m].keys_spec()).contains(key),
            decreases all@.len() - idx,
        {
            let action = all[idx];
            let ks = action.keys();
            let mut j: usize = 0;
            while j < ks.len()
                invariant
                    ks@ == action.keys_spec(),
                    j <= ks@.len(),
                    forall|m: int| 0 <= m < j ==> ks@[m] != key,
                decreases ks@.len() - j,
            {
                if ks[j] == key {
                    proof {
                        assert(action.keys_spec().contains(key));
                    }
                    return Option::Some(action);
                }
                j = j + 1;
            }
            proof {
                assert(!action.keys_spec().contains(key));
            }
            idx = idx + 1;
        }
        Option::None
    }
}

} // verus!
