use vstd::prelude::*;

use crate::freedesktop::Entry;
use crate::identity::UserRecord;
use crate::kv::{table_view, KeyValue};
use crate::text::{find_char, lemma_spec_find, spec_find};

verus! {

/// Everything the spawn of the chosen session needs: the program, the
/// target identity, the working directory to change to before the program
/// image is loaded, and the replaced (not merged) environment.
pub struct LaunchPlan {
    pub program: String,
    pub uid: u32,
    pub gid: u32,
    pub cwd: String,
    pub env: Vec<KeyValue>,
}

/// The distinct ways a session launch fails: no environment block could be
/// extracted, the authenticated identity is gone from the identity
/// directory, the working-directory change failed, or the spawn itself
/// failed. The last two arise only while performing the spawn.
#[derive(Debug)]
pub enum LaunchError {
    MissingEnvironment,
    UserNotFound,
    ChdirFailed,
    SpawnFailed,
}

/// Build the launch plan for the chosen entry. The environment block is
/// demanded first, then the identity record, as the orchestration extracts
/// them; the program is the entry's command, or its name when the entry
/// carries no command.
pub fn resolve_launch(entry: Entry, user: Option<UserRecord>, env: Option<Vec<KeyValue>>) -> (r:
    Result<LaunchPlan, LaunchError>)
    ensures
        env is None ==> r == Err::<LaunchPlan, LaunchError>(LaunchError::MissingEnvironment),
        env is Some && user is None ==> r == Err::<LaunchPlan, LaunchError>(
            LaunchError::UserNotFound,
        ),
        env is Some && user is Some ==> r is Ok && {
            let p = r.unwrap();
            let u = user.unwrap();
            &&& p.program == (match entry.exec_cmd {
                Some(x) => x,
                None => entry.name,
            })
            &&& p.uid == u.uid
            &&& p.gid == u.gid
            &&& p.cwd == u.home
            &&& p.env == env.unwrap()
        },
{
    let env = match env {
        Some(e) => e,
        None => {
            return Err(LaunchError::MissingEnvironment);
        },
    };
    let user = match user {
        Some(u) => u,
        None => {
            return Err(LaunchError::UserNotFound);
        },
    };
    let program = match entry.exec_cmd {
        Some(x) => x,
        None => entry.name,
    };
    Ok(LaunchPlan { program, uid: user.uid, gid: user.gid, cwd: user.home, env })
}

/// The binding a `NAME=VALUE` string makes, split at its first `=`; a
/// string with no `=` binds nothing.
pub open spec fn env_binding(s: Seq<char>) -> Option<(Seq<char>, Seq<char>)> {
    match spec_find(s, '=') {
        Some(i) => Some((s.take(i), s.skip(i + 1))),
        None => None,
    }
}

/// The bindings of a list of `NAME=VALUE` strings, in order, strings
/// without `=` dropped.
pub open spec fn env_bindings(xs: Seq<Seq<char>>) -> Seq<(Seq<char>, Seq<char>)>
    decreases xs.len(),
{
    if xs.len() == 0 {
        Seq::empty()
    } else {
        let rest = env_bindings(xs.drop_last());
        match env_binding(xs.last()) {
            Some(b) => rest.push(b),
            None => rest,
        }
    }
}

/// Split one `NAME=VALUE` string into its binding.
pub fn split_env_entry(s: &str) -> (r: Option<KeyValue>)
    ensures
        match r {
            Some(b) => env_binding(s@) == Some(b.pair()),
            None => env_binding(s@) is None,
        },
{
    match find_char(s, '=') {
        Some(i) => {
            proof {
                lemma_spec_find(s@, '=');
            }
            let len = s.unicode_len();
            let key = s.substring_char(0, i).to_owned();
            let value = s.substring_char(i + 1, len).to_owned();
            proof {
                assert(key@ =~= s@.take(i as int));
                assert(value@ =~= s@.skip(i as int + 1));
            }
            Some(KeyValue { key, value })
        },
        None => None,
    }
}

/// Split a whole environment, one `NAME=VALUE` string per entry, as the
/// launched session receives it.
pub fn env_from_strings(xs: &Vec<String>) -> (r: Vec<KeyValue>)
    ensures
        table_view(r@) == env_bindings(xs.deep_view()),
{
    let ghost full = xs.deep_view();
    let mut out: Vec<KeyValue> = Vec::new();
    let n = xs.len();
    proof {
        assert(full.len() == n);
        assert(full.take(0) =~= Seq::<Seq<char>>::empty());
        assert(table_view(out@) =~= env_bindings(full.take(0)));
    }
    let mut i: usize = 0;
    while i < n
        invariant
            i <= n,
            n == full.len(),
            n == xs@.len(),
            forall|j: int| 0 <= j < n ==> full[j] == #[trigger] xs@[j]@,
            table_view(out@) == env_bindings(full.take(i as int)),
        decreases n - i,
    {
        proof {
            assert(full.take(i + 1).drop_last() =~= full.take(i as int));
            assert(full.take(i + 1).last() == full[i as int]);
            assert(full[i as int] == xs@[i as int]@);
        }
        let ghost before = table_view(out@);
        match split_env_entry(xs[i].as_str()) {
            Some(b) => {
                out.push(b);
                proof {
                    assert(table_view(out@) =~= before.push(b.pair()));
                }
            },
            None => {},
        }
        i += 1;
    }
    proof {
        assert(full.take(n as int) =~= full);
    }
    out
}

} // verus!
