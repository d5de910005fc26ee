//! Where saved conversations live, and which of the files there are
//! sessions.

use vstd::prelude::*;
use vstd::string::*;
use crate::lines::texts;
use crate::text::{ends_with, matches_at_exec, slice_string, to_chars};

verus! {

/// Names the directory that holds saved conversations.
#[derive(Clone, Debug, PartialEq, Eq)]
pub struct SessionManager {
    pub sessions_dir: String,
}

/// The ending of a session file's name.
pub open spec fn session_suffix() -> Seq<char> {
    ".json"@
}

/// Whether a file of this name holds a session: the name ends in the
/// session suffix, and something stands before it.
pub open spec fn is_session_file(name: Seq<char>) -> bool {
    name.len() > session_suffix().len() && ends_with(name, session_suffix())
}

/// The name of the session that a session file holds.
pub open spec fn stem(name: Seq<char>) -> Seq<char> {
    name.take(name.len() - session_suffix().len())
}

/// The session names among file names, in the order of the files.
pub open spec fn stems(files: Seq<Seq<char>>) -> Seq<Seq<char>>
    decreases files.len(),
{
    if files.len() == 0 {
        Seq::empty()
    } else if is_session_file(files.last()) {
        stems(files.drop_last()).push(stem(files.last()))
    } else {
        stems(files.drop_last())
    }
}

/// `a` comes before `b`, or is `b`, in the order of the dictionary: the
/// first character in which they differ decides, and a text comes after its
/// own beginnings.
pub open spec fn lex_le(a: Seq<char>, b: Seq<char>) -> bool
    decreases a.len(),
{
    if a.len() == 0 {
        true
    } else if b.len() == 0 {
        false
    } else if a[0] != b[0] {
        (a[0] as u32) < (b[0] as u32)
    } else {
        lex_le(a.drop_first(), b.drop_first())
    }
}

/// Every name comes before, or is, each name after it.
pub open spec fn sorted(names: Seq<Seq<char>>) -> bool {
    forall|i: int, j: int| 0 <= i <= j < names.len() ==> lex_le(names[i], names[j])
}

/// Of two texts one comes before the other, or they are the same.
pub proof fn lemma_lex_total(a: Seq<char>, b: Seq<char>)
    ensures
        lex_le(a, b) || lex_le(b, a),
    decreases a.len(),
{
    if a.len() > 0 && b.len() > 0 {
        if a[0] == b[0] {
            lemma_lex_total(a.drop_first(), b.drop_first());
        } else {
            vstd::utf8::char_u32_cast(a[0], a[0] as u32);
            vstd::utf8::char_u32_cast(b[0], b[0] as u32);
        }
    }
}

/// The order is transitive.
pub proof fn lemma_lex_trans(a: Seq<char>, b: Seq<char>, c: Seq<char>)
    requires
        lex_le(a, b),
        lex_le(b, c),
    ensures
        lex_le(a, c),
    decreases a.len(),
{
    if a.len() > 0 && b.len() > 0 && c.len() > 0 && a[0] == b[0] && b[0] == c[0] {
        lemma_lex_trans(a.drop_first(), b.drop_first(), c.drop_first());
    }
}

/// Two texts that come before each other are the same.
pub proof fn lemma_lex_antisymmetric(a: Seq<char>, b: Seq<char>)
    requires
        lex_le(a, b),
        lex_le(b, a),
    ensures
        a == b,
    decreases a.len(),
{
    if a.len() > 0 && b.len() > 0 {
        lemma_lex_antisymmetric(a.drop_first(), b.drop_first());
        assert(a =~= seq![a[0]] + a.drop_first());
        assert(b =~= seq![b[0]] + b.drop_first());
    } else {
        assert(a =~= b);
    }
}

/// Whether `a` comes before `b`, or is `b`, in the order of the
/// dictionary.
pub fn text_le(a: &str, b: &str) -> (le: bool)
    ensures
        le == lex_le(a@, b@),
{
    let x = to_chars(a);
    let y = to_chars(b);
    let mut i: usize = 0;
    assert(x@.skip(0) =~= x@);
    assert(y@.skip(0) =~= y@);
    while i < x.len() && i < y.len()
        invariant
            i <= x.len(),
            i <= y.len(),
            x@ == a@,
            y@ == b@,
            lex_le(x@, y@) == lex_le(x@.skip(i as int), y@.skip(i as int)),
        decreases x.len() - i,
    {
        proof {
            assert(x@.skip(i as int)[0] == x[i as int]);
            assert(y@.skip(i as int)[0] == y[i as int]);
            assert(x@.skip(i as int).drop_first() =~= x@.skip(i + 1));
            assert(y@.skip(i as int).drop_first() =~= y@.skip(i + 1));
        }
        if x[i] != y[i] {
            let first: char = x[i];
            let second: char = y[i];
            let left: u32 = first as u32;
            let right: u32 = second as u32;
            return left < right;
        }
        i += 1;
    }
    i == x.len()
}

/// The session name that a file of this name holds, if it holds one.
pub fn session_of(file: &str) -> (name: Option<String>)
    ensures
        match name {
            Some(n) => is_session_file(file@) && n@ == stem(file@),
            None => !is_session_file(file@),
        },
{
    let chars = to_chars(file);
    let suffix = to_chars(".json");
    proof {
        reveal_strlit(".json");
    }
    if chars.len() > suffix.len() && matches_at_exec(&chars, &suffix, chars.len() - suffix.len()) {
        let n = slice_string(&chars, 0, chars.len() - suffix.len());
        Some(n)
    } else {
        None
    }
}

impl SessionManager {
    /// The manager of the sessions below the configuration directory
    /// `base`, or below the working directory where there is none.
    pub fn new(base: Option<String>) -> (manager: SessionManager)
        ensures
            manager.sessions_dir@ == match base {
                Some(dir) => dir@,
                None => "."@,
            } + "/agerus/sessions"@,
    {
        let mut dir = match base {
            Some(dir) => dir,
            None => String::from_str("."),
        };
        dir.append("/agerus/sessions");
        SessionManager { sessions_dir: dir }
    }

    /// Path of the file that holds the session `name`.
    pub fn session_file(&self, name: &str) -> (path: String)
        ensures
            path@ == self.sessions_dir@ + "/"@ + name@ + ".json"@,
    {
        let mut path = self.sessions_dir.clone();
        path.append("/");
        path.append(name);
        path.append(".json");
        path
    }

    /// The names of the sessions among the files of the sessions
    /// directory, in the order of the dictionary.
    pub fn list_sessions(files: &Vec<String>) -> (names: Vec<String>)
        ensures
            sorted(texts(names@)),
            texts(names@).to_multiset() == stems(texts(files@)).to_multiset(),
    {
        let mut names: Vec<String> = Vec::new();
        let mut i: usize = 0;
        let ghost all = texts(files@);
        assert(all.take(0) =~= Seq::empty());
        assert(texts(names@) =~= Seq::empty());
        while i < files.len()
            invariant
                i <= files.len(),
                all == texts(files@),
                sorted(texts(names@)),
                texts(names@).to_multiset() == stems(all.take(i as int)).to_multiset(),
            decreases files.len() - i,
        {
            proof {
                let now = all.take(i + 1);
                assert(now.drop_last() =~= all.take(i as int));
                assert(now.last() == files[i as int]@);
            }
            match session_of(files[i].as_str()) {
                Some(name) => {
                    let ghost before = texts(names@);
                    let mut at: usize = 0;
                    while at < names.len() && text_le(names[at].as_str(), name.as_str())
                        invariant
                            at <= names.len(),
                            before == texts(names@),
                            forall|k: int| 0 <= k < at ==> lex_le(before[k], name@),
                        decreases names.len() - at,
                    {
                        assert(before[at as int] == names[at as int]@);
                        at += 1;
                    }
                    proof {
                        if at < names.len() {
                            assert(before[at as int] == names[at as int]@);
                            lemma_lex_total(before[at as int], name@);
                            assert forall|k: int| at <= k < before.len() implies lex_le(
                                name@,
                                before[k],
                            ) by {
                                lemma_lex_trans(name@, before[at as int], before[k]);
                            }
                        }
                        vstd::seq_lib::to_multiset_insert(before, at as int, name@);
                        vstd::seq_lib::to_multiset_build(stems(all.take(i as int)), name@);
                    }
                    let ghost added = name@;
                    names.insert(at, name);
                    assert(texts(names@) =~= before.insert(at as int, added));
                    assert(sorted(texts(names@))) by {
                        let after = texts(names@);
                        assert forall|p: int, q: int| 0 <= p <= q < after.len() implies lex_le(
                            after[p],
                            after[q],
                        ) by {
                            if p == q {
                                lemma_lex_total(after[p], after[p]);
                            } else if q < at {
                                assert(after[p] == before[p] && after[q] == before[q]);
                            } else if q == at {
                                assert(after[p] == before[p]);
                            } else if p < at {
                                assert(after[p] == before[p] && after[q] == before[q - 1]);
                            } else if p == at {
                                assert(after[q] == before[q - 1]);
                            } else {
                                assert(after[p] == before[p - 1] && after[q] == before[q - 1]);
                            }
                        }
                    }
                },
                None => {},
            }
            i += 1;
        }
        assert(all.take(files.len() as int) =~= all);
        names
    }
}

} // verus!
