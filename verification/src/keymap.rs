//! The immutable mapping from literal key sequences to named editor
//! actions, supplied once at startup.
//!
//! The action set is a closed enum, so a well-typed keymap can only
//! name known actions; text taken from a configuration source goes
//! through [`Action::from_name`], where an unknown name surfaces as a
//! load-time error.

use vstd::prelude::*;

verus! {

/// A named editor action a key sequence can be bound to.
#[derive(Clone, Copy, Debug, PartialEq, Eq, Structural)]
pub enum Action {
    Enter,
    Insert,
    InsertStart,
    Append,
    AppendEnd,
    DeletePosInsert,
    DeleteLineInsert,
    ClearAfterCursor,
    CursorLeft,
    CursorRight,
    CursorLeftWord,
    CursorRightWord,
    CursorLeftAll,
    CursorRightAll,
    Quit,
}

/// The action a name denotes, if any.
pub open spec fn spec_action_of(name: Seq<char>) -> Option<Action> {
    if name == "Enter"@ {
        Some(Action::Enter)
    } else if name == "Insert"@ {
        Some(Action::Insert)
    } else if name == "InsertStart"@ {
        Some(Action::InsertStart)
    } else if name == "Append"@ {
        Some(Action::Append)
    } else if name == "AppendEnd"@ {
        Some(Action::AppendEnd)
    } else if name == "DeletePosInsert"@ {
        Some(Action::DeletePosInsert)
    } else if name == "DeleteLineInsert"@ {
        Some(Action::DeleteLineInsert)
    } else if name == "ClearAfterCursor"@ {
        Some(Action::ClearAfterCursor)
    } else if name == "CursorLeft"@ {
        Some(Action::CursorLeft)
    } else if name == "CursorRight"@ {
        Some(Action::CursorRight)
    } else if name == "CursorLeftWord"@ {
        Some(Action::CursorLeftWord)
    } else if name == "CursorRightWord"@ {
        Some(Action::CursorRightWord)
    } else if name == "CursorLeftAll"@ {
        Some(Action::CursorLeftAll)
    } else if name == "CursorRightAll"@ {
        Some(Action::CursorRightAll)
    } else if name == "Quit"@ {
        Some(Action::Quit)
    } else {
        None
    }
}

impl Action {
    /// Resolves an action name; `None` marks an unknown name, the
    /// fatal configuration error of keymap loading.
    pub fn from_name(name: &str) -> (r: Option<Action>)
        ensures
            r == spec_action_of(name@),
    {
        if str_eq(name, "Enter") {
            Some(Action::Enter)
        } else if str_eq(name, "Insert") {
            Some(Action::Insert)
        } else if str_eq(name, "InsertStart") {
            Some(Action::InsertStart)
        } else if str_eq(name, "Append") {
            Some(Action::Append)
        } else if str_eq(name, "AppendEnd") {
            Some(Action::AppendEnd)
        } else if str_eq(name, "DeletePosInsert") {
            Some(Action::DeletePosInsert)
        } else if str_eq(name, "DeleteLineInsert") {
            Some(Action::DeleteLineInsert)
        } else if str_eq(name, "ClearAfterCursor") {
            Some(Action::ClearAfterCursor)
        } else if str_eq(name, "CursorLeft") {
            Some(Action::CursorLeft)
        } else if str_eq(name, "CursorRight") {
            Some(Action::CursorRight)
        } else if str_eq(name, "CursorLeftWord") {
            Some(Action::CursorLeftWord)
        } else if str_eq(name, "CursorRightWord") {
            Some(Action::CursorRightWord)
        } else if str_eq(name, "CursorLeftAll") {
            Some(Action::CursorLeftAll)
        } else if str_eq(name, "CursorRightAll") {
            Some(Action::CursorRightAll)
        } else if str_eq(name, "Quit") {
            Some(Action::Quit)
        } else {
            None
        }
    }
}

/// Which action, if any, a binding list gives a key: the first
/// binding whose key matches.
pub open spec fn spec_lookup(bs: Seq<(Seq<char>, Action)>, key: Seq<char>) -> Option<Action>
    decreases bs.len(),
{
    if bs.len() == 0 {
        None
    } else if bs[0].0 == key {
        Some(bs[0].1)
    } else {
        spec_lookup(bs.skip(1), key)
    }
}

/// An error of keymap loading.
#[derive(Clone, Copy, Debug, PartialEq, Eq, Structural)]
pub enum KeymapError {
    /// The configuration named an action this editor does not have.
    UnknownAction,
}

/// Immutable mapping from key-sequence strings to actions.
///
/// A key bound twice keeps its first binding.
#[derive(Debug)]
pub struct Keymap {
    bindings: Vec<(String, Action)>,
}

impl View for Keymap {
    type V = Seq<(Seq<char>, Action)>;

    closed spec fn view(&self) -> Seq<(Seq<char>, Action)> {
        self.bindings@.map_values(|p: (String, Action)| (p.0@, p.1))
    }
}

impl Keymap {
    /// A keymap with no bindings.
    pub fn new() -> (r: Keymap)
        ensures
            r@ == Seq::<(Seq<char>, Action)>::empty(),
    {
        let r = Keymap { bindings: Vec::new() };
        proof {
            assert(r@ =~= Seq::<(Seq<char>, Action)>::empty());
        }
        r
    }

    /// Binds a key sequence to an action.
    pub fn bind(&mut self, key: String, action: Action)
        ensures
            final(self)@ == old(self)@.push((key@, action)),
    {
        let ghost k = key@;
        self.bindings.push((key, action));
        proof {
            assert(final(self)@ =~= old(self)@.push((k, action)));
        }
    }

    /// Binds a key sequence to an action given by name; an unknown
    /// name is the fatal configuration error and leaves the keymap
    /// unchanged.
    pub fn bind_name(&mut self, key: String, name: &str) -> (r: Result<(), KeymapError>)
        ensures
            match spec_action_of(name@) {
                Some(a) => r is Ok && final(self)@ == old(self)@.push((key@, a)),
                None => r is Err && final(self)@ == old(self)@,
            },
    {
        match Action::from_name(name) {
            Some(a) => {
                self.bind(key, a);
                Ok(())
            },
            None => Err(KeymapError::UnknownAction),
        }
    }

    /// The number of bindings.
    pub fn len(&self) -> (r: usize)
        ensures
            r == self@.len(),
    {
        self.bindings.len()
    }

    /// The action bound to `key`, if any.
    pub fn get(&self, key: &String) -> (r: Option<Action>)
        ensures
            r == spec_lookup(self@, key@),
    {
        let ghost bs = self@;
        let mut i: usize = 0;
        proof {
            assert(bs.skip(0) =~= bs);
        }
        while i < self.bindings.len()
            invariant
                i <= self.bindings@.len(),
                bs == self@,
                bs.len() == self.bindings@.len(),
                spec_lookup(bs, key@) == spec_lookup(bs.skip(i as int), key@),
            decreases self.bindings@.len() - i,
        {
            proof {
                assert(bs.skip(i as int)[0] == bs[i as int]);
                assert(bs.skip(i as int).skip(1) =~= bs.skip(i + 1));
            }
            if self.bindings[i].0 == *key {
                return Some(self.bindings[i].1);
            }
            i = i + 1;
        }
        proof {
            assert(bs.skip(bs.len() as int) =~= Seq::<(Seq<char>, Action)>::empty());
        }
        None
    }
}

/// Whether two string slices hold the same characters.
fn str_eq(a: &str, b: &str) -> (r: bool)
    ensures
        r == (a@ == b@),
{
    let na = a.unicode_len();
    let nb = b.unicode_len();
    if na != nb {
        proof {
            assert(a@ != b@);
        }
        return false;
    }
    let mut i: usize = 0;
    while i < na
        invariant
            i <= na,
            na == a@.len(),
            na == b@.len(),
            forall|j: int| 0 <= j < i ==> a@[j] == b@[j],
        decreases na - i,
    {
        if a.get_char(i) != b.get_char(i) {
            return false;
        }
        i = i + 1;
    }
    proof {
        assert(a@ =~= b@);
    }
    true
}

} // verus!
