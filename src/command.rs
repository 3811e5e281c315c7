//! Parsing of a completed command line into an action.
use vstd::prelude::*;

verus! {

/// What a command line asks for.
#[derive(Debug, PartialEq, Eq)]
pub enum Action {
    /// Nothing: an empty command line.
    Nothing,
    /// End the session.
    Quit,
    /// Save the buffer; the path is empty when none was given.
    Write(String),
    /// A verb that is not known; holds the command text after the marker.
    Unknown(String),
}

/// The command text without its leading `:` marker.
pub open spec fn command_body(c: Seq<char>) -> Seq<char> {
    if c.len() > 0 && c[0] == ':' {
        c.drop_first()
    } else {
        c
    }
}

/// The length of the verb: the characters before the first space.
pub open spec fn verb_end(b: Seq<char>) -> nat
    decreases b.len(),
{
    if b.len() == 0 || b[0] == ' ' {
        0
    } else {
        1 + verb_end(b.drop_first())
    }
}

/// The verb of a command body.
pub open spec fn verb(b: Seq<char>) -> Seq<char> {
    b.take(verb_end(b) as int)
}

/// What follows the verb and the space after it.
pub open spec fn arguments(b: Seq<char>) -> Seq<char> {
    if verb_end(b) < b.len() {
        b.skip(verb_end(b) + 1int)
    } else {
        Seq::empty()
    }
}

/// Whether `a` is the action that the command text `c` asks for.
pub open spec fn interprets_as(c: Seq<char>, a: Action) -> bool {
    let b = command_body(c);
    if b.len() == 0 {
        a is Nothing
    } else if b == seq!['q'] {
        a is Quit
    } else if verb(b) == seq!['w'] {
        a matches Action::Write(p) && p@ == arguments(b)
    } else {
        a matches Action::Unknown(t) && t@ == b
    }
}

proof fn lemma_verb_end_bound(b: Seq<char>)
    ensures
        verb_end(b) <= b.len(),
        verb_end(b) < b.len() ==> b[verb_end(b) as int] == ' ',
        forall|j: int| 0 <= j < verb_end(b) ==> b[j] != ' ',
    decreases b.len(),
{
    if b.len() > 0 && b[0] != ' ' {
        lemma_verb_end_bound(b.drop_first());
        assert forall|j: int| 0 <= j < verb_end(b) implies b[j] != ' ' by {
            if j > 0 {
                assert(b[j] == b.drop_first()[j - 1]);
            }
        }
    }
}

/// Reads a command line: strips the `:` marker, then splits the verb from its
/// arguments at the first space. `q` quits, `w [path]` saves, an empty line
/// does nothing, and anything else is reported as unknown.
pub fn interpret(cmd: &str) -> (r: Action)
    ensures
        interprets_as(cmd@, r),
{
    let n = cmd.unicode_len();
    let start: usize = if n > 0 && cmd.get_char(0) == ':' {
        1
    } else {
        0
    };
    let body = cmd.substring_char(start, n);
    assert(body@ =~= command_body(cmd@));
    let len = n - start;
    if len == 0 {
        return Action::Nothing;
    }
    let mut k: usize = 0;
    while k < len && body.get_char(k) != ' '
        invariant
            k <= len,
            len == body@.len(),
            forall|j: int| 0 <= j < k ==> body@[j] != ' ',
        decreases len - k,
    {
        k = k + 1;
    }
    proof {
        lemma_verb_end_bound(body@);
        assert(verb_end(body@) == k);
    }
    let first = body.get_char(0);
    if len == 1 && first == 'q' {
        assert(body@ =~= seq!['q']);
        return Action::Quit;
    }
    proof {
        assert(body@ == seq!['q'] ==> len == 1 && first == 'q');
    }
    if k == 1 && first == 'w' {
        assert(verb(body@) =~= seq!['w']);
        let path = if k < len {
            body.substring_char(k + 1, len).to_owned()
        } else {
            String::new()
        };
        assert(path@ =~= arguments(body@));
        return Action::Write(path);
    }
    proof {
        assert(verb(body@) == seq!['w'] ==> (k == 1 && first == 'w')) by {
            if verb(body@) == seq!['w'] {
                let w = seq!['w'];
                assert(w.len() == 1 && w[0] == 'w');
                assert(body@.take(k as int).len() == k);
                assert(body@.take(k as int)[0] == body@[0]);
            }
        }
    }
    Action::Unknown(body.to_owned())
}

} // verus!
