use vstd::prelude::*;

use crate::identity::UserRecord;
use crate::kv::{spec_get, spec_set, table_set, table_view, KeyValue};
use crate::text::{dec_str, find_char, lemma_spec_find, u8_to_dec};

verus! {

/// A request/response envelope. `id` is assigned by the caller, unique per
/// outstanding request, and serves only to pair a reply with its request.
pub struct Message<T> {
    pub id: u64,
    pub message: T,
}

/// What the renderer may ask of the authentication service.
pub enum Request {
    OpenSession,
    Login { username: String, password: String },
}

/// Pair a payload with its correlation id.
pub fn request<T>(id: u64, val: T) -> (m: Message<T>)
    ensures
        m.id == id,
        m.message == val,
{
    Message { id, message: val }
}

/// What ends a drain pass early: a credential-module failure, a callback
/// channel that would not take the reply, or a username the credential
/// binding cannot represent. Only the last one arises in the service's own
/// dispatch; the first two are raised by the process driving the channels.
#[derive(Debug)]
pub enum DrainError {
    Pam,
    FailedCallback,
    InvalidUsername,
}

/// The combined outcome of the open-session primitive and of the identity
/// lookup that follows it: the primitive failed, or it succeeded but the
/// bound username is not in the identity directory, or both succeeded.
pub enum SessionAttempt {
    PrimitiveFailed,
    UnknownUser,
    Opened(UserRecord),
}

/// What the credential primitives reported for one request. The service
/// reads the field matching the request kind: `session` for `OpenSession`,
/// `authenticated` for `Login`.
pub struct PrimitiveReport {
    pub session: SessionAttempt,
    pub authenticated: bool,
}

/// The mathematical state of the authentication service: the attempted
/// credentials, the accumulated environment block, and the display and
/// virtual terminal fixed at construction.
pub ghost struct AuthModel {
    pub username: Seq<char>,
    pub password: Seq<char>,
    pub env: Seq<(Seq<char>, Seq<char>)>,
    pub display: Seq<char>,
    pub vtnr: u8,
}

/// The authentication service's own state. The credential-module handle it
/// drives is owned by the surrounding process, which invokes the primitives
/// and feeds their outcomes in as `SessionAttempt` and `PrimitiveReport`
/// values.
pub struct Auth {
    pub username: String,
    pub password: String,
    pub env: Vec<KeyValue>,
    pub display: String,
    pub vtnr: u8,
}

/// Whether an `OpenSession` request is answered `opened=true`: exactly when
/// the open-session primitive succeeded and the identity lookup succeeded.
pub open spec fn session_opened(attempt: SessionAttempt) -> bool {
    attempt is Opened
}

/// Combine the open-session primitive's verdict with the identity lookup:
/// the attempt counts as opened exactly when the primitive succeeded and
/// the lookup found the user. The lookup is only consulted after a
/// successful primitive, so a failed primitive needs none.
pub fn classify_attempt(session_ok: bool, user: Option<UserRecord>) -> (a: SessionAttempt)
    ensures
        a == (if !session_ok {
            SessionAttempt::PrimitiveFailed
        } else {
            match user {
                Some(u) => SessionAttempt::Opened(u),
                None => SessionAttempt::UnknownUser,
            }
        }),
        session_opened(a) <==> (session_ok && user is Some),
{
    if session_ok {
        match user {
            Some(u) => SessionAttempt::Opened(u),
            None => SessionAttempt::UnknownUser,
        }
    } else {
        SessionAttempt::PrimitiveFailed
    }
}

/// A username the credential binding can represent: one with no NUL
/// character.
pub open spec fn valid_username(u: Seq<char>) -> bool {
    forall|i: int| 0 <= i < u.len() ==> u[i] != '\0'
}

/// The environment entries bound before the open-session primitive runs:
/// session type, session class, virtual terminal and seat.
pub open spec fn session_env_prep(
    e: Seq<(Seq<char>, Seq<char>)>,
    vt: Seq<char>,
) -> Seq<(Seq<char>, Seq<char>)> {
    spec_set(
        spec_set(
            spec_set(spec_set(e, "XDG_SESSION_TYPE"@, "x11"@), "XDG_SESSION_CLASS"@, "user"@),
            "XDG_VTNR"@,
            vt,
        ),
        "XDG_SEAT"@,
        "seat0"@,
    )
}

/// The environment entries bound after the open-session primitive: display
/// and user whatever the outcome, and shell, home and working directory
/// only for a session opened for a known user.
pub open spec fn session_env_finish(
    e: Seq<(Seq<char>, Seq<char>)>,
    display: Seq<char>,
    username: Seq<char>,
    attempt: SessionAttempt,
) -> Seq<(Seq<char>, Seq<char>)> {
    let d = spec_set(spec_set(e, "DISPLAY"@, display), "USER"@, username);
    match attempt {
        SessionAttempt::Opened(u) => spec_set(
            spec_set(spec_set(d, "SHELL"@, u.shell@), "HOME"@, u.home@),
            "PWD"@,
            u.home@,
        ),
        _ => d,
    }
}

/// The reply owed to one request, given the primitives' report.
pub open spec fn reply_value(req: Request, rep: PrimitiveReport) -> bool {
    match req {
        Request::OpenSession => session_opened(rep.session),
        Request::Login { .. } => rep.authenticated,
    }
}

/// Whether a request ends the drain pass with a fatal error: only a `Login`
/// whose username the credential binding cannot represent.
pub open spec fn login_fatal(req: Request) -> bool {
    match req {
        Request::OpenSession => false,
        Request::Login { username, .. } => !valid_username(username@),
    }
}

/// The position of the first fatal request of a queue, if any.
pub open spec fn first_fatal(q: Seq<Message<Request>>) -> Option<int>
    decreases q.len(),
{
    if q.len() == 0 {
        None
    } else if login_fatal(q[0].message) {
        Some(0int)
    } else {
        match first_fatal(q.skip(1)) {
            Some(i) => Some(i + 1),
            None => None,
        }
    }
}

/// `first_fatal` names the first fatal position, if any.
pub proof fn lemma_first_fatal(q: Seq<Message<Request>>)
    ensures
        match first_fatal(q) {
            Some(i) => 0 <= i < q.len() && login_fatal(q[i].message) && forall|j: int|
                0 <= j < i ==> !login_fatal(q[j].message),
            None => forall|j: int| 0 <= j < q.len() ==> !login_fatal(q[j].message),
        },
    decreases q.len(),
{
    if q.len() > 0 && !login_fatal(q[0].message) {
        lemma_first_fatal(q.skip(1));
        match first_fatal(q.skip(1)) {
            Some(i) => {
                assert(first_fatal(q) == Some(i + 1));
                assert(q.skip(1)[i] == q[i + 1]);
                assert forall|j: int| 0 <= j < i + 1 implies !login_fatal(q[j].message) by {
                    if j > 0 {
                        assert(q.skip(1)[j - 1] == q[j]);
                    }
                }
            },
            None => {
                assert forall|j: int| 0 <= j < q.len() implies !login_fatal(q[j].message) by {
                    if j > 0 {
                        assert(q.skip(1)[j - 1] == q[j]);
                    }
                }
            },
        }
    }
}

/// What one dispatched request does to the service state.
pub open spec fn step_model(m: AuthModel, req: Request, rep: PrimitiveReport) -> AuthModel {
    match req {
        Request::OpenSession => AuthModel {
            env: session_env_finish(
                session_env_prep(m.env, dec_str(m.vtnr as nat)),
                m.display,
                m.username,
                rep.session,
            ),
            ..m
        },
        Request::Login { username, password } => AuthModel {
            username: username@,
            password: password@,
            ..m
        },
    }
}

/// The replies owed to a queue of requests: one per request, in arrival
/// order, each carrying its request's id.
pub open spec fn drain_replies(q: Seq<Message<Request>>, reps: Seq<PrimitiveReport>) -> Seq<
    Message<bool>,
> {
    Seq::new(q.len(), |i: int| Message { id: q[i].id, message: reply_value(q[i].message, reps[i]) })
}

/// The service state after dispatching a queue of requests in order.
pub open spec fn drain_model(
    m: AuthModel,
    q: Seq<Message<Request>>,
    reps: Seq<PrimitiveReport>,
) -> AuthModel
    decreases q.len(),
{
    if q.len() == 0 {
        m
    } else {
        step_model(
            drain_model(m, q.drop_last(), reps.drop_last()),
            q.last().message,
            reps.last(),
        )
    }
}

impl Auth {
    pub open spec fn model(&self) -> AuthModel {
        AuthModel {
            username: self.username@,
            password: self.password@,
            env: table_view(self.env@),
            display: self.display@,
            vtnr: self.vtnr,
        }
    }

    /// A fresh service bound to `display` and virtual terminal `vtnr`, with
    /// no username attempted yet and an empty environment block.
    pub fn create(display: String, vtnr: u8) -> (a: Auth)
        ensures
            a.model() == (AuthModel {
                username: Seq::<char>::empty(),
                password: Seq::<char>::empty(),
                env: Seq::<(Seq<char>, Seq<char>)>::empty(),
                display: display@,
                vtnr: vtnr,
            }),
    {
        let a = Auth {
            username: String::new(),
            password: String::new(),
            env: Vec::new(),
            display,
            vtnr,
        };
        proof {
            assert(table_view(a.env@) =~= Seq::<(Seq<char>, Seq<char>)>::empty());
        }
        a
    }

    /// Bind the session-identifying environment entries. The surrounding
    /// process mirrors the block onto the credential module before invoking
    /// the open-session primitive.
    pub fn prepare_session_env(&mut self)
        ensures
            final(self).model() == (AuthModel {
                env: session_env_prep(old(self).model().env, dec_str(old(self).vtnr as nat)),
                ..old(self).model()
            }),
    {
        table_set(&mut self.env, "XDG_SESSION_TYPE", "x11");
        table_set(&mut self.env, "XDG_SESSION_CLASS", "user");
        let vt = u8_to_dec(self.vtnr);
        table_set(&mut self.env, "XDG_VTNR", vt.as_str());
        table_set(&mut self.env, "XDG_SEAT", "seat0");
    }

    /// Complete an `OpenSession` request given the primitives' outcome.
    /// The reply reports `opened=true` exactly when both the open-session
    /// primitive and the identity lookup succeeded; no outcome is fatal.
    /// Display and user entries are bound whatever the outcome; shell, home
    /// and working directory only on full success.
    pub fn finish_open_session(&mut self, id: u64, attempt: &SessionAttempt) -> (r: Message<bool>)
        ensures
            r.id == id,
            r.message == session_opened(*attempt),
            final(self).model() == (AuthModel {
                env: session_env_finish(
                    old(self).model().env,
                    old(self).model().display,
                    old(self).model().username,
                    *attempt,
                ),
                ..old(self).model()
            }),
    {
        let display = self.display.clone();
        table_set(&mut self.env, "DISPLAY", display.as_str());
        let username = self.username.clone();
        table_set(&mut self.env, "USER", username.as_str());
        let mut opened = false;
        match attempt {
            SessionAttempt::Opened(u) => {
                table_set(&mut self.env, "SHELL", u.shell.as_str());
                table_set(&mut self.env, "HOME", u.home.as_str());
                table_set(&mut self.env, "PWD", u.home.as_str());
                opened = true;
            },
            _ => {},
        }
        Message { id, message: opened }
    }

    /// Bind the attempted credentials onto the handle. Fails, leaving the
    /// state unchanged, exactly when the username cannot be represented by
    /// the credential binding; this is the only fatal path of a `Login`.
    pub fn bind_credentials(&mut self, username: String, password: String) -> (r: Result<
        (),
        DrainError,
    >)
        ensures
            r is Ok <==> valid_username(username@),
            r is Ok ==> final(self).model() == (AuthModel {
                username: username@,
                password: password@,
                ..old(self).model()
            }),
            r is Err ==> final(self).model() == old(self).model() && r == Err::<(), DrainError>(
                DrainError::InvalidUsername,
            ),
    {
        proof {
            lemma_spec_find(username@, '\0');
        }
        match find_char(username.as_str(), '\0') {
            Some(_) => Err(DrainError::InvalidUsername),
            None => {
                self.username = username;
                self.password = password;
                Ok(())
            },
        }
    }

    /// Reply to a `Login` request: success mirrors the authenticate
    /// primitive's verdict, and a failed authentication is reported, never
    /// raised as an error.
    pub fn finish_login(&self, id: u64, authenticated: bool) -> (r: Message<bool>)
        ensures
            r.id == id,
            r.message == authenticated,
    {
        Message { id, message: authenticated }
    }

    /// One drain pass over the queued requests: dispatch each in arrival
    /// order, appending exactly one reply per request onto `out`, each
    /// reply carrying its request's id. The pass stops at the first `Login`
    /// whose username the credential binding cannot represent; that request
    /// is fatal and gets no reply, and requests behind it stay undispatched.
    pub fn drain(
        &mut self,
        queue: &Vec<Message<Request>>,
        reports: &Vec<PrimitiveReport>,
        out: &mut Vec<Message<bool>>,
    ) -> (r: Result<(), DrainError>)
        requires
            queue@.len() == reports@.len(),
        ensures
            r is Ok <==> first_fatal(queue@) is None,
            match r {
                Ok(()) => (forall|i: int|
                    0 <= i < queue@.len() ==> !login_fatal(queue@[i].message)) && final(out)@ == old(
                    out,
                )@ + drain_replies(queue@, reports@) && final(self).model() == drain_model(
                    old(self).model(),
                    queue@,
                    reports@,
                ),
                Err(e) => {
                    let j = first_fatal(queue@).unwrap();
                    &&& e == DrainError::InvalidUsername
                    &&& first_fatal(queue@) is Some
                    &&& final(out)@ == old(out)@ + drain_replies(
                        queue@.take(j),
                        reports@.take(j),
                    )
                    &&& final(self).model() == drain_model(
                        old(self).model(),
                        queue@.take(j),
                        reports@.take(j),
                    )
                },
            },
    {
        let n = queue.len();
        proof {
            assert(queue@.take(0) =~= Seq::<Message<Request>>::empty());
            assert(reports@.take(0) =~= Seq::<PrimitiveReport>::empty());
            assert(drain_replies(queue@.take(0), reports@.take(0)) =~= Seq::<
                Message<bool>,
            >::empty());
            assert(out@ =~= out@ + drain_replies(queue@.take(0), reports@.take(0)));
        }
        let mut i: usize = 0;
        while i < n
            invariant
                n == queue@.len(),
                queue@.len() == reports@.len(),
                i <= n,
                forall|k: int| 0 <= k < i ==> !login_fatal(queue@[k].message),
                out@ == old(out)@ + drain_replies(queue@.take(i as int), reports@.take(i as int)),
                self.model() == drain_model(
                    old(self).model(),
                    queue@.take(i as int),
                    reports@.take(i as int),
                ),
            decreases n - i,
        {
            let ghost mi = self.model();
            let msg_id = queue[i].id;
            match &queue[i].message {
                Request::OpenSession => {
                    self.prepare_session_env();
                    let reply = self.finish_open_session(msg_id, &reports[i].session);
                    out.push(reply);
                },
                Request::Login { username, password } => {
                    match self.bind_credentials(username.clone(), password.clone()) {
                        Ok(()) => {
                            let reply = self.finish_login(msg_id, reports[i].authenticated);
                            out.push(reply);
                        },
                        Err(e) => {
                            proof {
                                assert(login_fatal(queue@[i as int].message));
                                lemma_first_fatal(queue@);
                                assert(first_fatal(queue@) == Some(i as int));
                            }
                            return Err(e);
                        },
                    }
                },
            }
            proof {
                assert(self.model() == step_model(mi, queue@[i as int].message, reports@[i as int]));
                assert(queue@.take(i + 1).drop_last() =~= queue@.take(i as int));
                assert(reports@.take(i + 1).drop_last() =~= reports@.take(i as int));
                assert(queue@.take(i + 1).last() == queue@[i as int]);
                assert(self.model() == drain_model(
                    old(self).model(),
                    queue@.take(i + 1),
                    reports@.take(i + 1),
                ));
                assert(out@ =~= old(out)@ + drain_replies(
                    queue@.take(i + 1),
                    reports@.take(i + 1),
                ));
            }
            i += 1;
        }
        proof {
            assert(queue@.take(n as int) =~= queue@);
            assert(reports@.take(n as int) =~= reports@);
            lemma_first_fatal(queue@);
        }
        Ok(())
    }
}

/// Law: completing an `OpenSession` request leaves the environment block
/// binding what the launched session is owed — the display and the
/// username whatever the outcome, and additionally the user's shell, home
/// and working directory when the session opened for a known user.
pub proof fn lemma_session_env_bindings(
    e: Seq<(Seq<char>, Seq<char>)>,
    display: Seq<char>,
    username: Seq<char>,
    attempt: SessionAttempt,
)
    ensures
        spec_get(session_env_finish(e, display, username, attempt), "DISPLAY"@) == Some(display),
        spec_get(session_env_finish(e, display, username, attempt), "USER"@) == Some(username),
        attempt matches SessionAttempt::Opened(u) ==> spec_get(
            session_env_finish(e, display, username, attempt),
            "SHELL"@,
        ) == Some(u.shell@) && spec_get(
            session_env_finish(e, display, username, attempt),
            "HOME"@,
        ) == Some(u.home@) && spec_get(
            session_env_finish(e, display, username, attempt),
            "PWD"@,
        ) == Some(u.home@),
{
    reveal_strlit("DISPLAY");
    reveal_strlit("USER");
    reveal_strlit("SHELL");
    reveal_strlit("HOME");
    reveal_strlit("PWD");
    assert("DISPLAY"@.len() == 7);
    assert("USER"@.len() == 4);
    assert("SHELL"@.len() == 5);
    assert("HOME"@.len() == 4);
    assert("PWD"@.len() == 3);
    assert("DISPLAY"@ != "USER"@);
    assert("DISPLAY"@ != "SHELL"@);
    assert("DISPLAY"@ != "HOME"@);
    assert("DISPLAY"@ != "PWD"@);
    assert("USER"@ != "SHELL"@);
    assert("USER"@ != "HOME"@) by {
        assert("USER"@[0] == 'U');
        assert("HOME"@[0] == 'H');
    }
    assert("USER"@ != "PWD"@);
    assert("SHELL"@ != "HOME"@);
    assert("SHELL"@ != "PWD"@);
    assert("HOME"@ != "PWD"@);
    let e1 = spec_set(e, "DISPLAY"@, display);
    let e2 = spec_set(e1, "USER"@, username);
    crate::kv::lemma_get_set(e, "DISPLAY"@, display, "DISPLAY"@);
    crate::kv::lemma_get_set(e1, "USER"@, username, "DISPLAY"@);
    match attempt {
        SessionAttempt::Opened(u) => {
            let e3 = spec_set(e2, "SHELL"@, u.shell@);
            let e4 = spec_set(e3, "HOME"@, u.home@);
            crate::kv::lemma_get_set(e2, "SHELL"@, u.shell@, "DISPLAY"@);
            crate::kv::lemma_get_set(e2, "SHELL"@, u.shell@, "USER"@);
            crate::kv::lemma_get_set(e3, "HOME"@, u.home@, "DISPLAY"@);
            crate::kv::lemma_get_set(e3, "HOME"@, u.home@, "USER"@);
            crate::kv::lemma_get_set(e3, "HOME"@, u.home@, "SHELL"@);
            crate::kv::lemma_get_set(e4, "PWD"@, u.home@, "DISPLAY"@);
            crate::kv::lemma_get_set(e4, "PWD"@, u.home@, "USER"@);
            crate::kv::lemma_get_set(e4, "PWD"@, u.home@, "SHELL"@);
            crate::kv::lemma_get_set(e4, "PWD"@, u.home@, "HOME"@);
        },
        _ => {},
    }
}

/// Law: a queue of requests with pairwise-distinct correlation ids is owed
/// exactly one reply per id — one reply per request, in arrival order, with
/// no id dropped or duplicated.
pub proof fn lemma_one_reply_per_id(q: Seq<Message<Request>>, reps: Seq<PrimitiveReport>)
    requires
        q.len() == reps.len(),
        forall|i: int, j: int| 0 <= i < j < q.len() ==> q[i].id != q[j].id,
    ensures
        drain_replies(q, reps).len() == q.len(),
        forall|i: int| 0 <= i < q.len() ==> drain_replies(q, reps)[i].id == q[i].id,
        forall|i: int, j: int|
            0 <= i < j < q.len() ==> drain_replies(q, reps)[i].id != drain_replies(q, reps)[j].id,
{
}

/// Law: a failed login does not poison a later one. Whatever the first
/// login attempt reported, a second login finds the service in the same
/// state it would have reached without the first attempt, and its reply
/// mirrors its own primitive outcome alone.
pub proof fn lemma_login_not_poisoned(
    m: AuthModel,
    first: Request,
    second: Request,
    rep1: PrimitiveReport,
    rep2: PrimitiveReport,
)
    requires
        first is Login,
        second is Login,
    ensures
        reply_value(second, rep2) == rep2.authenticated,
        step_model(step_model(m, first, rep1), second, rep2) == step_model(m, second, rep2),
{
}

} // verus!
