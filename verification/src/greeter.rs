use vstd::prelude::*;
use vstd::string::StringExecFns;
use crate::launcher::{printable, printable_chars};
use crate::json::{json_lookup, json_pointer_value, json_str, json_string};

verus! {

/// The input field that takes typing.
#[derive(Debug, Clone, Copy, PartialEq, Eq, Structural)]
pub enum ActiveField {
    Username,
    Password,
}

/// A key press on the login screen.
#[derive(Debug, Clone)]
pub enum GreeterKey {
    Tab,
    Enter,
    Backspace,
    Escape,
    /// Any other key, with the text it types, if any.
    Other { text: Option<String> },
}

/// What a click on the login card hit.
#[derive(Debug, Clone, Copy, PartialEq, Eq, Structural)]
pub enum ClickTarget {
    UsernameField,
    PasswordField,
    LoginButton,
    Elsewhere,
}

/// What the screen does after an input: redraw, and whether to log in now
/// with the typed credentials.
#[derive(Debug, Clone, Copy, PartialEq, Eq, Structural)]
pub struct GreeterOutcome {
    pub redraw: bool,
    pub login: bool,
}

/// The login screen's state.
pub struct Greeter {
    pub username: Vec<char>,
    pub password: Vec<char>,
    pub active_field: ActiveField,
    pub error_msg: String,
    pub running: bool,
}

/// The field after `f` in Tab order.
pub open spec fn other_field(f: ActiveField) -> ActiveField {
    match f {
        ActiveField::Username => ActiveField::Password,
        ActiveField::Password => ActiveField::Username,
    }
}

pub open spec fn drop_last_char(s: Seq<char>) -> Seq<char> {
    if s.len() > 0 {
        s.drop_last()
    } else {
        s
    }
}

/// The check before a login, from the fields as they are: whether the login
/// goes ahead, the message shown and the active field. An empty username asks
/// for one and makes its field active; an empty password asks for one; else
/// the message is cleared.
pub open spec fn login_check(username: Seq<char>, password: Seq<char>, active: ActiveField) -> (
    bool,
    Seq<char>,
    ActiveField,
) {
    if username.len() == 0 {
        (false, "Enter a username"@, ActiveField::Username)
    } else if password.len() == 0 {
        (false, "Enter a password"@, active)
    } else {
        (true, Seq::<char>::empty(), active)
    }
}

impl Greeter {
    /// An empty login screen with the username field active.
    pub fn new() -> (g: Greeter)
        ensures
            g.username@ == Seq::<char>::empty(),
            g.password@ == Seq::<char>::empty(),
            g.active_field == ActiveField::Username,
            g.error_msg@ == Seq::<char>::empty(),
            g.running,
    {
        Greeter {
            username: Vec::new(),
            password: Vec::new(),
            active_field: ActiveField::Username,
            error_msg: String::new(),
            running: true,
        }
    }

    /// Checks the fields before logging in: an empty username asks for one
    /// (and makes its field active), an empty password asks for one; else the
    /// error is cleared and the login may go ahead (the result).
    pub fn begin_login(&mut self) -> (go: bool)
        ensures
            go == (old(self).username@.len() > 0 && old(self).password@.len() > 0),
            old(self).username@.len() == 0 ==> final(self).error_msg@ == "Enter a username"@
                && final(self).active_field == ActiveField::Username,
            old(self).username@.len() > 0 && old(self).password@.len() == 0 ==> final(self).error_msg@ == "Enter a password"@ && final(self).active_field == old(self).active_field,
            go ==> final(self).error_msg@ == Seq::<char>::empty() && final(self).active_field == old(self).active_field,
            (go, final(self).error_msg@, final(self).active_field) == login_check(
                old(self).username@,
                old(self).password@,
                old(self).active_field,
            ),
            final(self).username@ == old(self).username@,
            final(self).password@ == old(self).password@,
            final(self).running == old(self).running,
    {
        if self.username.len() == 0 {
            self.error_msg = String::from_str("Enter a username");
            self.active_field = ActiveField::Username;
            return false;
        }
        if self.password.len() == 0 {
            self.error_msg = String::from_str("Enter a password");
            return false;
        }
        self.error_msg = String::new();
        true
    }

    /// The outcome of a login: success ends the greeter; a failure shows its
    /// message and clears the password.
    pub fn finish_login(&mut self, result: Result<(), String>)
        ensures
            match result {
                Ok(()) => !final(self).running && final(self).password@ == old(self).password@
                    && final(self).error_msg@ == old(self).error_msg@,
                Err(e) => final(self).running == old(self).running && final(self).error_msg@ == e@
                    && final(self).password@ == Seq::<char>::empty(),
            },
            final(self).username@ == old(self).username@,
            final(self).active_field == old(self).active_field,
    {
        match result {
            Ok(()) => {
                self.running = false;
            },
            Err(e) => {
                self.error_msg = e;
                self.password = Vec::new();
            },
        }
    }

    /// A key press: Tab switches fields; Enter moves from the username to the
    /// password and on the password logs in (see [`Greeter::begin_login`]);
    /// Backspace drops the active field's last character; Escape clears the
    /// error and the password; typed text (control characters dropped) goes to
    /// the active field.
    pub fn press_key(&mut self, key: GreeterKey) -> (r: GreeterOutcome)
        ensures
            final(self).running == old(self).running,
            match key {
                GreeterKey::Tab => r == (GreeterOutcome { redraw: true, login: false })
                    && final(self).active_field == other_field(old(self).active_field)
                    && final(self).username@ == old(self).username@ && final(self).password@
                    == old(self).password@ && final(self).error_msg@ == old(self).error_msg@,
                GreeterKey::Enter => match old(self).active_field {
                    ActiveField::Username => r == (GreeterOutcome { redraw: true, login: false })
                        && final(self).active_field == ActiveField::Password
                        && final(self).username@ == old(self).username@ && final(self).password@
                        == old(self).password@ && final(self).error_msg@ == old(self).error_msg@,
                    ActiveField::Password => r.redraw && r.login == (old(self).username@.len() > 0
                        && old(self).password@.len() > 0) && (old(self).username@.len() == 0
                        ==> final(self).error_msg@ == "Enter a username"@ && final(self).active_field == ActiveField::Username) && (old(self).username@.len() > 0
                        && old(self).password@.len() == 0 ==> final(self).error_msg@
                        == "Enter a password"@) && (r.login ==> final(self).error_msg@ == Seq::<
                        char,
                    >::empty()) && (r.login, final(self).error_msg@, final(self).active_field)
                        == login_check(old(self).username@, old(self).password@, old(self).active_field)
                        && final(self).username@ == old(self).username@ && final(self).password@ == old(self).password@,
                },
                GreeterKey::Backspace => r == (GreeterOutcome { redraw: true, login: false })
                    && final(self).active_field == old(self).active_field && final(self).error_msg@
                    == old(self).error_msg@ && match old(self).active_field {
                    ActiveField::Username => final(self).username@ == drop_last_char(
                        old(self).username@,
                    ) && final(self).password@ == old(self).password@,
                    ActiveField::Password => final(self).password@ == drop_last_char(
                        old(self).password@,
                    ) && final(self).username@ == old(self).username@,
                },
                GreeterKey::Escape => r == (GreeterOutcome { redraw: true, login: false })
                    && final(self).error_msg@ == Seq::<char>::empty() && final(self).password@
                    == Seq::<char>::empty() && final(self).username@ == old(self).username@
                    && final(self).active_field == old(self).active_field,
                GreeterKey::Other { text } => !r.login && final(self).active_field == old(self).active_field && final(self).error_msg@ == old(self).error_msg@ && match text {
                    Some(t) if printable(t@).len() > 0 => r.redraw && match old(self).active_field {
                        ActiveField::Username => final(self).username@ == old(self).username@
                            + printable(t@) && final(self).password@ == old(self).password@,
                        ActiveField::Password => final(self).password@ == old(self).password@
                            + printable(t@) && final(self).username@ == old(self).username@,
                    },
                    _ => !r.redraw && final(self).username@ == old(self).username@ && final(self).password@ == old(self).password@,
                },
            },
    {
        match key {
            GreeterKey::Tab => {
                self.active_field = match self.active_field {
                    ActiveField::Username => ActiveField::Password,
                    ActiveField::Password => ActiveField::Username,
                };
                GreeterOutcome { redraw: true, login: false }
            },
            GreeterKey::Enter => match self.active_field {
                ActiveField::Username => {
                    self.active_field = ActiveField::Password;
                    GreeterOutcome { redraw: true, login: false }
                },
                ActiveField::Password => {
                    let go = self.begin_login();
                    GreeterOutcome { redraw: true, login: go }
                },
            },
            GreeterKey::Backspace => {
                match self.active_field {
                    ActiveField::Username => {
                        self.username.pop();
                    },
                    ActiveField::Password => {
                        self.password.pop();
                    },
                }
                GreeterOutcome { redraw: true, login: false }
            },
            GreeterKey::Escape => {
                self.error_msg = String::new();
                self.password = Vec::new();
                GreeterOutcome { redraw: true, login: false }
            },
            GreeterKey::Other { text } => match text {
                None => GreeterOutcome { redraw: false, login: false },
                Some(t) => {
                    let typed = printable_chars(t.as_str());
                    if typed.len() == 0 {
                        GreeterOutcome { redraw: false, login: false }
                    } else {
                        match self.active_field {
                            ActiveField::Username => append_chars(&mut self.username, &typed),
                            ActiveField::Password => append_chars(&mut self.password, &typed),
                        }
                        GreeterOutcome { redraw: true, login: false }
                    }
                },
            },
        }
    }

    /// A click: on a field makes it active, on the button logs in (see
    /// [`Greeter::begin_login`]); elsewhere nothing happens.
    pub fn click(&mut self, target: ClickTarget) -> (r: GreeterOutcome)
        ensures
            match target {
                ClickTarget::UsernameField => r == (GreeterOutcome { redraw: true, login: false })
                    && final(self).active_field == ActiveField::Username,
                ClickTarget::PasswordField => r == (GreeterOutcome { redraw: true, login: false })
                    && final(self).active_field == ActiveField::Password,
                ClickTarget::LoginButton => r.redraw && r.login == (old(self).username@.len() > 0
                    && old(self).password@.len() > 0) && (r.login, final(self).error_msg@, final(self).active_field) == login_check(
                    old(self).username@,
                    old(self).password@,
                    old(self).active_field,
                ),
                ClickTarget::Elsewhere => r == (GreeterOutcome { redraw: false, login: false })
                    && final(self).active_field == old(self).active_field && final(self).error_msg@
                    == old(self).error_msg@,
            },
            final(self).username@ == old(self).username@,
            final(self).password@ == old(self).password@,
            final(self).running == old(self).running,
    {
        match target {
            ClickTarget::UsernameField => {
                self.active_field = ActiveField::Username;
                GreeterOutcome { redraw: true, login: false }
            },
            ClickTarget::PasswordField => {
                self.active_field = ActiveField::Password;
                GreeterOutcome { redraw: true, login: false }
            },
            ClickTarget::LoginButton => {
                let go = self.begin_login();
                GreeterOutcome { redraw: true, login: go }
            },
            ClickTarget::Elsewhere => GreeterOutcome { redraw: false, login: false },
        }
    }
}

fn append_chars(v: &mut Vec<char>, t: &Vec<char>)
    ensures
        final(v)@ == old(v)@ + t@,
{
    let ghost v0 = v@;
    let mut k: usize = 0;
    while k < t.len()
        invariant
            k <= t@.len(),
            v@ == v0 + t@.take(k as int),
        decreases t.len() - k,
    {
        v.push(t[k]);
        k += 1;
        assert(v@ =~= v0 + t@.take(k as int));
    }
    assert(t@.take(t@.len() as int) =~= t@);
}

/// A request to the greetd daemon.
#[derive(Debug, Clone)]
pub enum GreetdRequest {
    CreateSession { username: String },
    PostAuthMessageResponse { response: String },
    StartSession { cmd: Vec<String> },
    CancelSession,
}

/// Where a login conversation with greetd stands: which request was sent.
#[derive(Debug, Clone, Copy, PartialEq, Eq, Structural)]
pub enum LoginStage {
    CreatingSession,
    Authenticating,
    StartingSession,
}

/// What to do with greetd's reply.
#[derive(Debug, Clone)]
pub enum LoginStep {
    /// Send `request` next; the conversation is then at `next`.
    Send { request: GreetdRequest, next: LoginStage },
    /// The login failed with `message`; cancel the session first when
    /// `cancel` holds.
    Fail { cancel: bool, message: String },
    /// The session started.
    Done,
}

/// The session the greeter starts: the compositor in session mode.
pub open spec fn session_cmd_of() -> Seq<Seq<char>> {
    seq!["niri"@, "--session"@]
}

/// The session command, as greetd takes it.
pub fn session_command() -> (cmd: Vec<String>)
    ensures
        cmd@.len() == 2,
        cmd@[0]@ == "niri"@,
        cmd@[1]@ == "--session"@,
{
    let mut cmd: Vec<String> = Vec::new();
    cmd.push(String::from_str("niri"));
    cmd.push(String::from_str("--session"));
    cmd
}

/// The first request of a login: create a session for `username`.
pub fn login_request(username: &str) -> (r: GreetdRequest)
    ensures
        r matches GreetdRequest::CreateSession { username: u } && u@ == username@,
{
    GreetdRequest::CreateSession { username: String::from_str(username) }
}

/// The message of a failure reply: its description, else `fallback`.
pub open spec fn described(description: Option<Seq<char>>, fallback: Seq<char>) -> Seq<char> {
    match description {
        Some(d) => d,
        None => fallback,
    }
}

/// The step after greetd replied `kind` (with `description`, when the
/// reply has one as text) at `stage`: a session needing no authentication, or
/// authenticated, is started with the session command; an authentication
/// prompt is answered with the password; an error fails (with its
/// description, or a message for the stage) and, before the session starts,
/// cancels it; anything else fails as unexpected, cancelling likewise.
pub open spec fn login_step_of(
    stage: LoginStage,
    kind: Seq<char>,
    description: Option<Seq<char>>,
    password: Seq<char>,
    step: LoginStep,
) -> bool {
    let unexpected = "Unexpected response: "@ + kind;
    match stage {
        LoginStage::CreatingSession => if kind == "success"@ {
            step matches LoginStep::Send { request: GreetdRequest::StartSession { cmd }, next }
                && next == LoginStage::StartingSession && cmd@.map_values(|s: String| s@)
                == session_cmd_of()
        } else if kind == "auth_message"@ {
            step matches LoginStep::Send {
                request: GreetdRequest::PostAuthMessageResponse { response },
                next,
            } && next == LoginStage::Authenticating && response@ == password
        } else if kind == "error"@ {
            step matches LoginStep::Fail { cancel, message } && cancel && message@ == described(
                description,
                "Session creation failed"@,
            )
        } else {
            step matches LoginStep::Fail { cancel, message } && cancel && message@ == unexpected
        },
        LoginStage::Authenticating => if kind == "success"@ {
            step matches LoginStep::Send { request: GreetdRequest::StartSession { cmd }, next }
                && next == LoginStage::StartingSession && cmd@.map_values(|s: String| s@)
                == session_cmd_of()
        } else if kind == "error"@ {
            step matches LoginStep::Fail { cancel, message } && cancel && message@ == described(
                description,
                "Authentication failed"@,
            )
        } else {
            step matches LoginStep::Fail { cancel, message } && cancel && message@ == unexpected
        },
        LoginStage::StartingSession => if kind == "success"@ {
            step is Done
        } else if kind == "error"@ {
            step matches LoginStep::Fail { cancel, message } && !cancel && message@ == described(
                description,
                "Failed to start session"@,
            )
        } else {
            step matches LoginStep::Fail { cancel, message } && !cancel && message@ == unexpected
        },
    }
}

fn is_text(s: &str, lit: &str) -> (b: bool)
    ensures
        b == (s@ == lit@),
{
    let a = crate::text::chars_of(s);
    let c = crate::text::chars_of(lit);
    crate::text::same_chars(a.as_slice(), c.as_slice())
}

fn fail_with(cancel: bool, description: Option<&str>, fallback: &str) -> (step: LoginStep)
    ensures
        step matches LoginStep::Fail { cancel: c, message } && c == cancel && message@
            == described(
            match description {
                Some(d) => Some(d@),
                None => None,
            },
            fallback@,
        ),
{
    match description {
        Some(d) => LoginStep::Fail { cancel, message: String::from_str(d) },
        None => LoginStep::Fail { cancel, message: String::from_str(fallback) },
    }
}

fn unexpected(cancel: bool, kind: &str) -> (step: LoginStep)
    ensures
        step matches LoginStep::Fail { cancel: c, message } && c == cancel && message@
            == "Unexpected response: "@ + kind@,
{
    let mut message = String::from_str("Unexpected response: ");
    message.append(kind);
    LoginStep::Fail { cancel, message }
}

fn start_session() -> (step: LoginStep)
    ensures
        step matches LoginStep::Send { request: GreetdRequest::StartSession { cmd }, next } && next
            == LoginStage::StartingSession && cmd@.map_values(|s: String| s@) == session_cmd_of(),
{
    let cmd = session_command();
    assert(cmd@.map_values(|s: String| s@) =~= session_cmd_of());
    LoginStep::Send { request: GreetdRequest::StartSession { cmd }, next: LoginStage::StartingSession }
}

/// Decides the next step of a login from greetd's reply: its `type` field as
/// `kind` (empty when missing) and its `description` field when it is text.
pub fn login_step(stage: LoginStage, kind: &str, description: Option<&str>, password: &str) -> (step:
    LoginStep)
    ensures
        login_step_of(
            stage,
            kind@,
            match description {
                Some(d) => Some(d@),
                None => None,
            },
            password@,
            step,
        ),
{
    match stage {
        LoginStage::CreatingSession => {
            if is_text(kind, "success") {
                start_session()
            } else if is_text(kind, "auth_message") {
                LoginStep::Send {
                    request: GreetdRequest::PostAuthMessageResponse {
                        response: String::from_str(password),
                    },
                    next: LoginStage::Authenticating,
                }
            } else if is_text(kind, "error") {
                fail_with(true, description, "Session creation failed")
            } else {
                unexpected(true, kind)
            }
        },
        LoginStage::Authenticating => {
            if is_text(kind, "success") {
                start_session()
            } else if is_text(kind, "error") {
                fail_with(true, description, "Authentication failed")
            } else {
                unexpected(true, kind)
            }
        },
        LoginStage::StartingSession => {
            if is_text(kind, "success") {
                LoginStep::Done
            } else if is_text(kind, "error") {
                fail_with(false, description, "Failed to start session")
            } else {
                unexpected(false, kind)
            }
        },
    }
}

/// A length as four little-endian bytes.
pub open spec fn le_value(b: Seq<u8>) -> int {
    b[0] + 256 * b[1] + 65536 * b[2] + 16777216 * b[3]
}

/// A greetd frame: the payload's length as a little-endian `u32`, then the
/// payload.
pub open spec fn framed(p: Seq<u8>) -> Seq<u8> {
    seq![
        (p.len() % 256) as u8,
        ((p.len() / 256) % 256) as u8,
        ((p.len() / 65536) % 256) as u8,
        (p.len() / 16777216) as u8,
    ] + p
}

/// Frames a message for greetd.
pub fn frame_message(payload: &[u8]) -> (out: Vec<u8>)
    requires
        payload@.len() <= u32::MAX,
    ensures
        out@ == framed(payload@),
{
    let n = payload.len() as u32;
    let mut out: Vec<u8> = Vec::new();
    out.push((n % 256) as u8);
    out.push(((n / 256) % 256) as u8);
    out.push(((n / 65536) % 256) as u8);
    out.push((n / 16777216) as u8);
    let ghost head = out@;
    let mut i: usize = 0;
    while i < payload.len()
        invariant
            i <= payload@.len(),
            out@ == head + payload@.take(i as int),
        decreases payload.len() - i,
    {
        out.push(payload[i]);
        i += 1;
        assert(out@ =~= head + payload@.take(i as int));
    }
    assert(payload@.take(payload@.len() as int) =~= payload@);
    assert(out@ =~= framed(payload@));
    out
}

/// The payload length announced by a frame header.
pub fn frame_length(header: [u8; 4]) -> (n: u32)
    ensures
        n == le_value(header@),
{
    header[0] as u32 + header[1] as u32 * 256 + header[2] as u32 * 65536 + header[3] as u32
        * 16777216
}

/// Reading a frame's header gives back the payload's length, and the payload
/// follows it unchanged.
pub proof fn lemma_frame_round_trip(payload: Seq<u8>)
    requires
        payload.len() <= u32::MAX,
    ensures
        le_value(framed(payload).take(4)) == payload.len(),
        framed(payload).skip(4) == payload,
{
    let n = payload.len();
    assert(framed(payload).skip(4) =~= payload);
    assert(n == n % 256 + 256 * ((n / 256) % 256) + 65536 * ((n / 65536) % 256) + 16777216 * (n
        / 16777216)) by (nonlinear_arith)
        requires
            n <= 0xffff_ffff,
    ;
}

/// Tab twice comes back to the same field.
pub proof fn lemma_tab_twice(f: ActiveField)
    ensures
        other_field(other_field(f)) == f,
        other_field(f) != f,
{
}

/// greetd's reply as its `type` (empty when it has no string there) and its
/// `description` (when a string is there); nothing when the reply is not JSON.
pub open spec fn greetd_reply_of(text: Seq<char>) -> Option<(Seq<char>, Option<Seq<char>>)> {
    if json_pointer_value(text, ""@) is None {
        None
    } else {
        Some(
            (
                match json_str(text, "/type"@) {
                    Some(k) => k,
                    None => ""@,
                },
                json_str(text, "/description"@),
            ),
        )
    }
}

/// Reads a greetd reply (the payload of a frame): its `type`, empty when
/// missing, and its `description`, if any; `None` when it is not JSON.
pub fn greetd_reply(text: &str) -> (r: Option<(String, Option<String>)>)
    ensures
        r is None <==> json_pointer_value(text@, ""@) is None,
        match r {
            Some((kind, description)) => greetd_reply_of(text@) == Some(
                (
                    kind@,
                    match description {
                        Some(d) => Some(d@),
                        None => None,
                    },
                ),
            ),
            None => greetd_reply_of(text@) is None,
        },
{
    if json_lookup(text, "").is_none() {
        return None;
    }
    let kind = match json_string(text, "/type") {
        Some(k) => k,
        None => String::from_str(""),
    };
    let description = json_string(text, "/description");
    Some((kind, description))
}

// ───────────────────────── a whole login ─────────────────────────

/// The `type` of a request as greetd reads it.
pub open spec fn request_type(r: GreetdRequest) -> Seq<char> {
    match r {
        GreetdRequest::CreateSession { .. } => "create_session"@,
        GreetdRequest::PostAuthMessageResponse { .. } => "post_auth_message_response"@,
        GreetdRequest::StartSession { .. } => "start_session"@,
        GreetdRequest::CancelSession => "cancel_session"@,
    }
}

/// What carrying out a step sends, by request type: the request of a `Send`,
/// `cancel_session` for a failure that cancels, nothing else.
pub open spec fn step_sends(step: LoginStep) -> Seq<Seq<char>> {
    match step {
        LoginStep::Send { request, .. } => seq![request_type(request)],
        LoginStep::Fail { cancel, .. } => if cancel {
            seq!["cancel_session"@]
        } else {
            seq![]
        },
        LoginStep::Done => seq![],
    }
}

/// What is sent after greetd replies `kind` at `stage`.
pub open spec fn reply_sends(stage: LoginStage, kind: Seq<char>) -> Seq<Seq<char>> {
    match stage {
        LoginStage::CreatingSession => if kind == "success"@ {
            seq!["start_session"@]
        } else if kind == "auth_message"@ {
            seq!["post_auth_message_response"@]
        } else {
            seq!["cancel_session"@]
        },
        LoginStage::Authenticating => if kind == "success"@ {
            seq!["start_session"@]
        } else {
            seq!["cancel_session"@]
        },
        LoginStage::StartingSession => seq![],
    }
}

/// Where the login stands after greetd replies `kind` at `stage`, when it
/// goes on.
pub open spec fn reply_next(stage: LoginStage, kind: Seq<char>) -> Option<LoginStage> {
    match stage {
        LoginStage::CreatingSession => if kind == "success"@ {
            Some(LoginStage::StartingSession)
        } else if kind == "auth_message"@ {
            Some(LoginStage::Authenticating)
        } else {
            None
        },
        LoginStage::Authenticating => if kind == "success"@ {
            Some(LoginStage::StartingSession)
        } else {
            None
        },
        LoginStage::StartingSession => None,
    }
}

/// The reply `kind` at `stage` logs the user in.
pub open spec fn reply_done(stage: LoginStage, kind: Seq<char>) -> bool {
    stage == LoginStage::StartingSession && kind == "success"@
}

/// Each step that `login_step` gives carries out the reply as
/// `reply_sends`, `reply_next` and `reply_done` describe it.
pub proof fn lemma_step_follows_reply(
    stage: LoginStage,
    kind: Seq<char>,
    description: Option<Seq<char>>,
    password: Seq<char>,
    step: LoginStep,
)
    requires
        login_step_of(stage, kind, description, password, step),
    ensures
        step_sends(step) == reply_sends(stage, kind),
        step is Done <==> reply_done(stage, kind),
        step is Send <==> reply_next(stage, kind) is Some,
        step matches LoginStep::Send { next, .. } ==> reply_next(stage, kind) == Some(next),
{
}

/// The requests a login sends from `stage` on while greetd replies with the
/// types `replies`, in order, and how it ends: `Some(true)` logged in,
/// `Some(false)` failed, `None` still waiting for a reply.
pub open spec fn login_run(stage: LoginStage, replies: Seq<Seq<char>>) -> (
    Seq<Seq<char>>,
    Option<bool>,
)
    decreases replies.len(),
{
    if replies.len() == 0 {
        (seq![], None)
    } else {
        let kind = replies[0];
        let sent = reply_sends(stage, kind);
        if reply_done(stage, kind) {
            (sent, Some(true))
        } else {
            match reply_next(stage, kind) {
                Some(n) => {
                    let rest = login_run(n, replies.drop_first());
                    (sent + rest.0, rest.1)
                },
                None => (sent, Some(false)),
            }
        }
    }
}

/// A whole login: `create_session` first, then what the replies call for.
pub open spec fn login_exchange(replies: Seq<Seq<char>>) -> (Seq<Seq<char>>, Option<bool>) {
    let run = login_run(LoginStage::CreatingSession, replies);
    (seq!["create_session"@] + run.0, run.1)
}

/// Over any replies, a login sends `create_session` first, then at most two
/// more requests, the one after position 0 answering the reply at the same
/// position minus one: the password (`post_auth_message_response`) only
/// right after an `auth_message` reply to the session's creation,
/// `start_session` only after a `success` reply, and `cancel_session` only
/// after any other reply, as the last request, before any `start_session`,
/// ending in failure. The login succeeds exactly when `start_session` was
/// sent and greetd replied `success` to it.
pub proof fn lemma_login_exchange(replies: Seq<Seq<char>>)
    ensures
        ({
            let (sent, end) = login_exchange(replies);
            &&& 1 <= sent.len() <= 3
            &&& sent[0] == "create_session"@
            &&& forall|j: int|
                0 <= j < sent.len() - 1 ==> {
                    &&& j < replies.len()
                    &&& sent[j + 1] == "post_auth_message_response"@ ==> j == 0 && replies[j]
                        == "auth_message"@
                    &&& sent[j + 1] == "start_session"@ ==> replies[j] == "success"@
                    &&& sent[j + 1] == "cancel_session"@ ==> {
                        &&& replies[j] != "success"@
                        &&& j + 2 == sent.len()
                        &&& end == Some(false)
                        &&& forall|m: int| 0 <= m < sent.len() ==> sent[m] != "start_session"@
                    }
                    &&& (sent[j + 1] == "post_auth_message_response"@ || sent[j + 1]
                        == "start_session"@ || sent[j + 1] == "cancel_session"@)
                }
            &&& end == Some(true) <==> (sent.last() == "start_session"@ && sent.len() - 1
                < replies.len() && replies[sent.len() - 1] == "success"@)
        }),
{
    reveal_with_fuel(login_run, 4);
    let c = LoginStage::CreatingSession;
    let a = LoginStage::Authenticating;
    let st = LoginStage::StartingSession;
    if replies.len() >= 1 {
        let r1 = replies.drop_first();
        if replies.len() >= 2 {
            let r2 = r1.drop_first();
            assert(r1[0] == replies[1]);
            if replies.len() >= 3 {
                assert(r2[0] == replies[2]);
            }
        }
    }
    let (sent, end) = login_exchange(replies);
    assert(sent[0] == "create_session"@);
    assert("success"@ != "auth_message"@) by {
        reveal_strlit("success");
        reveal_strlit("auth_message");
        assert("success"@.len() != "auth_message"@.len());
    }
    assert("start_session"@ != "post_auth_message_response"@ && "start_session"@
        != "cancel_session"@ && "cancel_session"@ != "post_auth_message_response"@
        && "create_session"@ != "start_session"@) by {
        reveal_strlit("start_session");
        reveal_strlit("post_auth_message_response");
        reveal_strlit("cancel_session");
        reveal_strlit("create_session");
        assert("start_session"@.len() == 13);
        assert("post_auth_message_response"@.len() == 26);
        assert("cancel_session"@.len() == 14);
        assert("create_session"@.len() == 14);
    }
}

} // verus!
