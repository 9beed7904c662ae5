use vstd::prelude::*;

use crate::freedesktop::{Entry, EntryType};
use crate::message::Session;
use crate::text::str_eq;

verus! {

/// The largest integer a page number can hold exactly: session keys are
/// truncated to 53 bits before they cross into the renderer's page.
pub const JS_NUMBER_MASK: u64 = 0x1F_FFFF_FFFF_FFFF;

/// Truncate a path hash to the page-representable range.
pub fn session_key(h: u64) -> (k: u64)
    ensures
        k == h & JS_NUMBER_MASK,
{
    h & JS_NUMBER_MASK
}

/// The chooser entry a desktop entry contributes under key `key`:
/// applications only, a missing comment shown as empty text.
pub fn session_entry(key: u64, entry: &Entry) -> (r: Option<Session>)
    ensures
        match r {
            Some(s) => entry.typ is Application && s.key == key && s.name@ == entry.name@
                && s.comment@ == (match entry.comment {
                Some(c) => c@,
                None => Seq::<char>::empty(),
            }),
            None => !(entry.typ is Application),
        },
{
    match entry.typ {
        EntryType::Application => {
            let comment = match &entry.comment {
                Some(c) => c.clone(),
                None => String::new(),
            };
            Some(Session { name: entry.name.clone(), key, comment })
        },
        EntryType::Unknown => None,
    }
}

/// The names of the chooser entries, in order.
pub open spec fn session_names(ss: Seq<Session>) -> Seq<Seq<char>> {
    ss.map_values(|s: Session| s.name@)
}

/// The position of the last entry named `want`, if any.
pub open spec fn last_match(names: Seq<Seq<char>>, want: Seq<char>) -> Option<int>
    decreases names.len(),
{
    if names.len() == 0 {
        None
    } else if names.last() == want {
        Some(names.len() - 1)
    } else {
        last_match(names.drop_last(), want)
    }
}

/// The position of the default chooser entry: the last entry carrying the
/// configured default name, else the first entry, else none.
pub open spec fn default_choice(names: Seq<Seq<char>>, want: Option<Seq<char>>) -> Option<int> {
    let m = match want {
        Some(w) => last_match(names, w),
        None => None,
    };
    match m {
        Some(i) => Some(i),
        None => if names.len() > 0 {
            Some(0int)
        } else {
            None
        },
    }
}

/// Pick the default chooser entry.
pub fn choose_default(sessions: &Vec<Session>, want: &Option<String>) -> (r: Option<usize>)
    ensures
        ({
            let w = match want {
                Some(v) => Some(v@),
                None => None::<Seq<char>>,
            };
            match r {
                Some(i) => i < sessions@.len() && default_choice(session_names(sessions@), w)
                    == Some(i as int),
                None => default_choice(session_names(sessions@), w) is None,
            }
        }),
{
    let ghost names = session_names(sessions@);
    let n = sessions.len();
    proof {
        assert(names.len() == n);
    }
    match want {
        Some(w) => {
            let mut i: usize = n;
            proof {
                assert(names.take(n as int) =~= names);
            }
            while i > 0
                invariant
                    i <= n,
                    n == sessions@.len(),
                    match want {
                        Some(v) => v@ == w@,
                        None => false,
                    },
                    names == session_names(sessions@),
                    last_match(names, w@) == last_match(names.take(i as int), w@),
                decreases i,
            {
                proof {
                    assert(names.take(i as int).last() == names[i as int - 1]);
                    assert(names[i as int - 1] == sessions@[i as int - 1].name@);
                    assert(names.take(i as int).drop_last() =~= names.take(i as int - 1));
                }
                if str_eq(sessions[i - 1].name.as_str(), w.as_str()) {
                    proof {
                        assert(names.take(i as int).last() == w@);
                        assert(last_match(names.take(i as int), w@) == Some(i as int - 1));
                        assert(default_choice(names, Some(w@)) == Some(i as int - 1));
                    }
                    return Some(i - 1);
                }
                i -= 1;
            }
            proof {
                assert(names.take(0) =~= Seq::<Seq<char>>::empty());
            }
            if n > 0 {
                Some(0)
            } else {
                None
            }
        },
        None => {
            if n > 0 {
                Some(0)
            } else {
                None
            }
        },
    }
}

} // verus!
