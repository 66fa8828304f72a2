//! The registry of sessions: it holds the sessions of all configured hosts
//! and keeps exactly one of them selected for input and display.

use crate::position::SHELL_HEIGHT;
use crate::session::{Session, ShellModel};
use vstd::prelude::*;

verus! {

/// Whether session `i` is the one selected session of `sessions`.
pub open spec fn is_selected(sessions: Seq<Session>, i: int) -> bool {
    &&& 0 <= i < sessions.len()
    &&& forall|j: int| 0 <= j < sessions.len() ==> ((#[trigger] sessions[j]).selected <==> j == i)
}

/// Unless there is no session at all, exactly one session is selected.
pub open spec fn one_selected(sessions: Seq<Session>) -> bool {
    sessions.len() == 0 || exists|i: int| is_selected(sessions, i)
}

/// The sessions as they start for the given hostnames, in order, the first
/// one selected.
pub open spec fn started(hostnames: Seq<String>) -> Seq<Session> {
    Seq::new(
        hostnames.len(),
        |i: int| Session { selected: i == 0, ..Session::start(hostnames[i]@) },
    )
}

/// The sessions with session `i` selected and no other.
pub open spec fn with_selected(sessions: Seq<Session>, i: int) -> Seq<Session> {
    Seq::new(sessions.len(), |j: int| Session { selected: j == i, ..sessions[j] })
}

/// At most one session is the selected one.
pub proof fn lemma_selected_unique(sessions: Seq<Session>, i: int, j: int)
    requires
        is_selected(sessions, i),
        is_selected(sessions, j),
    ensures
        i == j,
{
    assert(sessions[i].selected);
}

/// The sessions held in a vector, as mathematical values.
pub open spec fn session_views(sessions: Seq<ShellModel>) -> Seq<Session> {
    sessions.map_values(|s: ShellModel| s@)
}

/// The sessions of all hosts. Input goes to the selected session and to no
/// other, and only the selected session is displayed.
pub struct SessionRegistry {
    sessions: Vec<ShellModel>,
    selected: usize,
}

impl View for SessionRegistry {
    type V = Seq<Session>;

    closed spec fn view(&self) -> Seq<Session> {
        session_views(self.sessions@)
    }
}

impl SessionRegistry {
    #[verifier::type_invariant]
    spec fn inv(self) -> bool {
        self.sessions@.len() > 0 ==> is_selected(self@, self.selected as int)
    }

    /// A registry with one new session for each hostname, in the order
    /// given. The first session is the selected one.
    pub fn new(hostnames: Vec<String>) -> (registry: SessionRegistry)
        ensures
            registry@ == started(hostnames@),
            one_selected(registry@),
    {
        let mut sessions: Vec<ShellModel> = Vec::new();
        let mut i: usize = 0;
        while i < hostnames.len()
            invariant
                i <= hostnames.len(),
                sessions@.len() == i,
                forall|j: int|
                    0 <= j < i ==> (#[trigger] sessions@[j])@ == started(hostnames@)[j],
            decreases hostnames.len() - i,
        {
            let mut session = ShellModel::new(hostnames[i].as_str());
            session.selected = i == 0;
            sessions.push(session);
            i = i + 1;
        }
        let registry = SessionRegistry { sessions, selected: 0 };
        assert(registry@ =~= started(hostnames@));
        assert(registry@.len() > 0 ==> is_selected(registry@, 0));
        registry
    }

    /// The number of sessions.
    pub fn len(&self) -> (n: usize)
        ensures
            n == self@.len(),
    {
        self.sessions.len()
    }

    /// The index of the selected session; `None` if there is no session.
    pub fn selected(&self) -> (index: Option<usize>)
        ensures
            one_selected(self@),
            match index {
                Some(i) => is_selected(self@, i as int),
                None => self@.len() == 0,
            },
    {
        proof {
            use_type_invariant(self);
        }
        if self.sessions.len() == 0 {
            None
        } else {
            Some(self.selected)
        }
    }

    /// The session at `index`, if there is one.
    pub fn session(&self, index: usize) -> (session: Option<&ShellModel>)
        ensures
            match session {
                Some(s) => index < self@.len() && s@ == self@[index as int],
                None => index >= self@.len(),
            },
    {
        if index < self.sessions.len() {
            Some(&self.sessions[index])
        } else {
            None
        }
    }

    /// Selects the session at `index` in place of the one selected so far.
    /// Returns `false`, and changes nothing, if there is no such session.
    pub fn select(&mut self, index: usize) -> (done: bool)
        ensures
            done == (index < old(self)@.len()),
            final(self)@ == if done {
                with_selected(old(self)@, index as int)
            } else {
                old(self)@
            },
            one_selected(final(self)@),
    {
        proof {
            use_type_invariant(&*self);
        }
        if index >= self.sessions.len() {
            return false;
        }
        let previous = self.selected;
        let mut sessions: Vec<ShellModel> = Vec::new();
        core::mem::swap(&mut self.sessions, &mut sessions);
        sessions[previous].selected = false;
        sessions[index].selected = true;
        self.selected = index;
        assert(session_views(sessions@) =~= with_selected(old(self)@, index as int));
        assert(is_selected(session_views(sessions@), index as int));
        core::mem::swap(&mut self.sessions, &mut sessions);
        true
    }

    /// Hands the input of one tick to the selected session. The other
    /// sessions stay as they are.
    pub fn handle_input(&mut self, typed: &str, enter_pressed: bool)
        ensures
            forall|i: int|
                is_selected(old(self)@, i) ==> final(self)@ == old(self)@.update(
                    i,
                    old(self)@[i].tick(typed@, enter_pressed),
                ),
            old(self)@.len() == 0 ==> final(self)@ == old(self)@,
            one_selected(final(self)@),
    {
        proof {
            use_type_invariant(&*self);
        }
        if self.sessions.len() > 0 {
            let selected = self.selected;
            let mut sessions: Vec<ShellModel> = Vec::new();
            core::mem::swap(&mut self.sessions, &mut sessions);
            sessions[selected].handle_input(typed, enter_pressed);
            assert(session_views(sessions@) =~= old(self)@.update(
                selected as int,
                old(self)@[selected as int].tick(typed@, enter_pressed),
            ));
            assert(is_selected(session_views(sessions@), selected as int));
            core::mem::swap(&mut self.sessions, &mut sessions);
            assert forall|i: int| is_selected(old(self)@, i) implies i == selected by {
                lemma_selected_unique(old(self)@, i, selected as int);
            }
        }
    }

    /// The screen of the selected session as displayed, one string per
    /// row; `None` if there is no session.
    pub fn snapshot(&self) -> (rows: Option<Vec<String>>)
        ensures
            match rows {
                Some(rows) => exists|i: int|
                    is_selected(self@, i) && rows@.len() == SHELL_HEIGHT
                        && forall|r: int|
                        0 <= r < SHELL_HEIGHT ==> (#[trigger] rows@[r])@
                            == self@[i].screen.row_text(r),
                None => self@.len() == 0,
            },
    {
        proof {
            use_type_invariant(self);
        }
        if self.sessions.len() == 0 {
            None
        } else {
            let rows = self.sessions[self.selected].shell_data.snapshot();
            assert(is_selected(self@, self.selected as int));
            Some(rows)
        }
    }
}

} // verus!
