use vstd::prelude::*;

verus! {

/// One key event: a character and whether the control modifier was held.
#[derive(Clone, Copy, Debug, PartialEq, Eq, Structural)]
pub struct KeyChord {
    pub ch: char,
    pub ctrl: bool,
}

/// What the viewer does in response to one key chord.
#[derive(Clone, Copy, Debug, PartialEq, Eq, Structural)]
pub enum Action {
    /// End the session.
    Quit,
    /// Scroll the viewport down by one line.
    ScrollDown,
    /// Scroll the viewport up by one line.
    ScrollUp,
    /// Do nothing.
    Ignore,
}

/// The viewer's key-chord table: control+`c` and plain `q` end the session,
/// plain `j` and `k` scroll down and up, everything else is ignored.
pub open spec fn action_of(c: KeyChord) -> Action {
    if c.ctrl {
        if c.ch == 'c' {
            Action::Quit
        } else {
            Action::Ignore
        }
    } else if c.ch == 'q' {
        Action::Quit
    } else if c.ch == 'j' {
        Action::ScrollDown
    } else if c.ch == 'k' {
        Action::ScrollUp
    } else {
        Action::Ignore
    }
}

/// Map one key chord to the action the viewer takes on it.
pub fn handle_key(c: KeyChord) -> (r: Action)
    ensures
        r == action_of(c),
{
    if c.ctrl {
        if c.ch == 'c' {
            Action::Quit
        } else {
            Action::Ignore
        }
    } else if c.ch == 'q' {
        Action::Quit
    } else if c.ch == 'j' {
        Action::ScrollDown
    } else if c.ch == 'k' {
        Action::ScrollUp
    } else {
        Action::Ignore
    }
}

/// The scroll actions the listening loop performs on the chord feed
/// `events[i..]`, in order, stopping at the first quit chord (or at the end
/// of the feed). Ignored chords contribute nothing; nothing is emitted at or
/// after the quit chord.
pub open spec fn scrolls_from(events: Seq<KeyChord>, i: int) -> Seq<Action>
    decreases events.len() - i,
{
    if i < 0 || i >= events.len() {
        Seq::<Action>::empty()
    } else {
        let a = action_of(events[i]);
        if a == Action::Quit {
            Seq::<Action>::empty()
        } else if a == Action::Ignore {
            scrolls_from(events, i + 1)
        } else {
            seq![a] + scrolls_from(events, i + 1)
        }
    }
}

/// The scroll actions the listening loop performs on the whole feed.
pub open spec fn scrolls_of(events: Seq<KeyChord>) -> Seq<Action> {
    scrolls_from(events, 0)
}

/// Whether some chord in the feed ends the session.
pub open spec fn quits(events: Seq<KeyChord>) -> bool {
    exists|i: int| 0 <= i < events.len() && action_of(events[i]) == Action::Quit
}

/// The listening loop, run over a finite chord feed instead of a blocking
/// terminal: interpret each chord in order, collect the scroll actions, and
/// stop at the first quit chord. Returns the scrolls performed and whether a
/// quit chord ended the run (on a live terminal the loop instead blocks for
/// the next event, so it only ever returns on a quit).
pub fn replay(events: &Vec<KeyChord>) -> (r: (Vec<Action>, bool))
    ensures
        r.0@ == scrolls_of(events@),
        r.1 == quits(events@),
{
    let mut acc: Vec<Action> = Vec::new();
    let mut i: usize = 0;
    while i < events.len()
        invariant
            i <= events.len(),
            acc@ + scrolls_from(events@, i as int) == scrolls_of(events@),
            forall|j: int| 0 <= j < i ==> action_of(events@[j]) != Action::Quit,
        decreases events.len() - i,
    {
        let a = handle_key(events[i]);
        match a {
            Action::Quit => {
                proof {
                    assert(quits(events@));
                    assert(acc@ =~= scrolls_of(events@));
                }
                return (acc, true);
            },
            Action::Ignore => {},
            _ => {
                let ghost pre = acc@;
                acc.push(a);
                proof {
                    assert(acc@ + scrolls_from(events@, i + 1) =~= pre + scrolls_from(
                        events@,
                        i as int,
                    ));
                }
            },
        }
        i = i + 1;
    }
    proof {
        assert(acc@ =~= scrolls_of(events@));
    }
    (acc, false)
}

/// A control+`c` chord at position `i` ends the session no later than that
/// chord, whatever came before it: the loop quits, and no chord from
/// position `i` on contributes a scroll.
pub proof fn lemma_ctrl_c_terminates(events: Seq<KeyChord>, i: int)
    requires
        0 <= i < events.len(),
        events[i].ctrl,
        events[i].ch == 'c',
    ensures
        quits(events),
        scrolls_of(events) == scrolls_of(events.take(i)),
{
    assert(action_of(events[i]) == Action::Quit);
    lemma_stops_at_quit(events, i, 0);
}

/// Helper for the early-termination law: if `events[i]` is a quit chord,
/// interpreting the feed from any position `j` at or before `i` emits the
/// same scrolls as interpreting only the part before `i`.
proof fn lemma_stops_at_quit(events: Seq<KeyChord>, i: int, j: int)
    requires
        0 <= j <= i < events.len(),
        action_of(events[i]) == Action::Quit,
    ensures
        scrolls_from(events, j) == scrolls_from(events.take(i), j),
    decreases i - j,
{
    if j < i {
        lemma_stops_at_quit(events, i, j + 1);
        assert(events.take(i)[j] == events[j]);
        if action_of(events[j]) != Action::Quit && action_of(events[j]) != Action::Ignore {
            assert(scrolls_from(events, j) =~= scrolls_from(events.take(i), j));
        }
    } else {
        assert(scrolls_from(events.take(i), j) =~= Seq::<Action>::empty());
    }
}

} // verus!
