use vstd::prelude::*;

verus! {

/// Display-backend parameters: the display name and the virtual terminal,
/// as texts of the form `:0` and `vt7`.
pub struct XOrgConfig {
    pub display: String,
    pub vt: String,
}

/// Renderer theme parameters.
pub struct Theme {
    pub path: String,
    pub debug: bool,
    pub allow_external_resources: bool,
}

/// User-listing parameters.
pub struct Users {
    pub hide: bool,
    pub home_prefix: String,
}

/// Session-chooser parameters: where the desktop entries live and which
/// entry name is preselected.
pub struct Session {
    pub path: String,
    pub default: Option<String>,
}

/// The effective configuration: the configuration file overridden by the
/// command line.
pub struct Config {
    pub xorg: XOrgConfig,
    pub theme: Theme,
    pub create_x_server: bool,
    pub session: Session,
    pub users: Users,
}

/// The configuration file's values, with file defaults already applied by
/// the reader.
pub struct ConfigFile {
    pub xorg: XOrgConfig,
    pub session: Session,
    pub users: Users,
    pub theme: Theme,
}

/// What the command line carried: presence flags and optional overriding
/// values, handed over as plain values by the argument reader.
pub struct CliArgs {
    pub use_server: bool,
    pub display: Option<String>,
    pub vt: Option<String>,
    pub theme: Option<String>,
    pub insecure: bool,
    pub debug: bool,
    pub home: Option<String>,
    pub hide_users: bool,
    pub sessions: Option<String>,
}

/// The default for a flag that is off unless given.
pub fn false_bool() -> (r: bool)
    ensures
        r == false,
{
    false
}

/// The default display.
pub fn default_display() -> (r: String)
    ensures
        r@ == ":0"@,
{
    String::from_str(":0")
}

/// The default virtual terminal.
pub fn default_vt() -> (r: String)
    ensures
        r@ == "vt7"@,
{
    String::from_str("vt7")
}

/// The default home-directory prefix.
pub fn default_home() -> (r: String)
    ensures
        r@ == "/home/"@,
{
    String::from_str("/home/")
}

/// By default no session is preselected.
pub fn default_session() -> (r: Option<String>)
    ensures
        r is None,
{
    None
}

/// The default directory of session desktop entries.
pub fn default_sessions_dir() -> (r: String)
    ensures
        r@ == "/usr/share/xsessions"@,
{
    String::from_str("/usr/share/xsessions")
}

impl Default for Session {
    /// The file defaults of the session section.
    fn default() -> (s: Session)
        ensures
            s.path@ == "/usr/share/xsessions"@,
            s.default is None,
    {
        Session { path: default_sessions_dir(), default: default_session() }
    }
}

impl Default for Users {
    /// The file defaults of the users section.
    fn default() -> (u: Users)
        ensures
            u.hide == false,
            u.home_prefix@ == "/home/"@,
    {
        Users { hide: false, home_prefix: default_home() }
    }
}

impl Default for XOrgConfig {
    /// The file defaults of the display-backend section.
    fn default() -> (x: XOrgConfig)
        ensures
            x.display@ == ":0"@,
            x.vt@ == "vt7"@,
    {
        XOrgConfig { display: default_display(), vt: default_vt() }
    }
}

/// A command-line value overriding a file value.
pub open spec fn override_str(cli: Option<String>, file: String) -> String {
    match cli {
        Some(v) => v,
        None => file,
    }
}

/// Take the command-line value where one was given, the file value
/// otherwise.
pub fn get(value: Option<String>, or: String) -> (r: String)
    ensures
        r == override_str(value, or),
{
    match value {
        Some(v) => v,
        None => or,
    }
}

impl Config {
    /// Merge the configuration file with the command line: every value the
    /// command line carries wins, every flag it sets stays set, and an
    /// existing display server is used exactly when the command line says
    /// so.
    pub fn from(file: ConfigFile, cli: CliArgs) -> (c: Config)
        ensures
            c.create_x_server == !cli.use_server,
            c.xorg.display == override_str(cli.display, file.xorg.display),
            c.xorg.vt == override_str(cli.vt, file.xorg.vt),
            c.theme.path == override_str(cli.theme, file.theme.path),
            c.theme.debug == (cli.debug || file.theme.debug),
            c.theme.allow_external_resources == (cli.insecure
                || file.theme.allow_external_resources),
            c.session.path == override_str(cli.sessions, file.session.path),
            c.session.default == file.session.default,
            c.users.hide == (cli.hide_users || file.users.hide),
            c.users.home_prefix == override_str(cli.home, file.users.home_prefix),
    {
        Config {
            create_x_server: !cli.use_server,
            xorg: XOrgConfig {
                display: get(cli.display, file.xorg.display),
                vt: get(cli.vt, file.xorg.vt),
            },
            theme: Theme {
                path: get(cli.theme, file.theme.path),
                debug: cli.debug || file.theme.debug,
                allow_external_resources: cli.insecure || file.theme.allow_external_resources,
            },
            session: Session {
                path: get(cli.sessions, file.session.path),
                default: file.session.default,
            },
            users: Users {
                hide: cli.hide_users || file.users.hide,
                home_prefix: get(cli.home, file.users.home_prefix),
            },
        }
    }
}

/// A virtual-terminal text without its `vt` prefixes: the prefix is
/// stripped as often as it occurs.
pub open spec fn strip_vt(s: Seq<char>) -> Seq<char>
    decreases s.len(),
{
    if s.len() >= 2 && s[0] == 'v' && s[1] == 't' {
        strip_vt(s.skip(2))
    } else {
        s
    }
}

/// A text of decimal digits only.
pub open spec fn all_digits(s: Seq<char>) -> bool {
    forall|i: int| 0 <= i < s.len() ==> 48 <= #[trigger] (s[i] as int) <= 57
}

/// The number a text of decimal digits denotes.
pub open spec fn dec_val(s: Seq<char>) -> int
    decreases s.len(),
{
    if s.len() == 0 {
        0
    } else {
        dec_val(s.drop_last()) * 10 + (s.last() as int - 48)
    }
}

/// The number a digit text with an optional leading `+` denotes, when it
/// fits: empty digits, a stray character or a value above 255 denote
/// nothing.
pub open spec fn parse_u8_spec(t: Seq<char>) -> Option<u8> {
    let u = if t.len() > 0 && t[0] == '+' {
        t.skip(1)
    } else {
        t
    };
    if u.len() > 0 && all_digits(u) && dec_val(u) <= 255 {
        Some(dec_val(u) as u8)
    } else {
        None
    }
}

/// The virtual-terminal number a configured text denotes.
pub open spec fn vt_number(s: Seq<char>) -> Option<u8> {
    parse_u8_spec(strip_vt(s))
}

proof fn lemma_dec_val_nonneg(s: Seq<char>)
    requires
        all_digits(s),
    ensures
        dec_val(s) >= 0,
    decreases s.len(),
{
    if s.len() > 0 {
        assert(all_digits(s.drop_last())) by {
            assert(forall|i: int|
                0 <= i < s.drop_last().len() ==> s.drop_last()[i] == s[i]);
        }
        lemma_dec_val_nonneg(s.drop_last());
    }
}

/// Reading more digits never shrinks the value.
proof fn lemma_dec_val_prefix(u: Seq<char>, j: int)
    requires
        all_digits(u),
        0 <= j <= u.len(),
    ensures
        dec_val(u.take(j)) <= dec_val(u),
    decreases u.len() - j,
{
    if j == u.len() {
        assert(u.take(j) =~= u);
        lemma_dec_val_nonneg(u);
    } else {
        lemma_dec_val_prefix(u, j + 1);
        assert(u.take(j + 1).drop_last() =~= u.take(j));
        assert(u.take(j + 1).last() == u[j]);
        assert(all_digits(u.take(j))) by {
            assert(forall|i: int| 0 <= i < j ==> u.take(j)[i] == u[i]);
        }
        lemma_dec_val_nonneg(u.take(j));
        assert(dec_val(u.take(j + 1)) == dec_val(u.take(j)) * 10 + (u[j] as int - 48));
    }
}

/// Where the `vt` prefixes of `s` end, scanning from `i`.
fn strip_vt_prefix(s: &str, i: usize) -> (r: usize)
    requires
        i <= s@.len(),
    ensures
        i <= r <= s@.len(),
        strip_vt(s@.skip(i as int)) == s@.skip(r as int),
    decreases s@.len() - i,
{
    let n = s.unicode_len();
    if n - i >= 2 {
        let c0 = s.get_char(i);
        let c1 = s.get_char(i + 1);
        proof {
            assert(s@.skip(i as int)[0] == s@[i as int]);
            assert(s@.skip(i as int)[1] == s@[i as int + 1]);
        }
        if c0 == 'v' && c1 == 't' {
            proof {
                assert(s@.skip(i as int).skip(2) =~= s@.skip(i as int + 2));
            }
            return strip_vt_prefix(s, i + 2);
        }
        proof {
            assert(strip_vt(s@.skip(i as int)) == s@.skip(i as int));
        }
        return i;
    }
    proof {
        assert(s@.skip(i as int).len() < 2);
        assert(strip_vt(s@.skip(i as int)) == s@.skip(i as int));
    }
    i
}

/// Parse a configured virtual-terminal text such as `vt7` into its
/// number: the `vt` prefix is stripped and the rest read as a decimal
/// number up to 255, with an optional leading `+`.
pub fn parse_vt(s: &str) -> (r: Option<u8>)
    ensures
        r == vt_number(s@),
{
    proof {
        assert(s@.skip(0) =~= s@);
    }
    let start = strip_vt_prefix(s, 0);
    let n = s.unicode_len();
    let ghost t = s@.skip(start as int);
    let j0 = if start < n && s.get_char(start) == '+' {
        start + 1
    } else {
        start
    };
    let ghost u = s@.skip(j0 as int);
    proof {
        if j0 == start + 1 {
            assert(t[0] == s@[start as int]);
            assert(t.skip(1) =~= u);
        } else if start < n {
            assert(t[0] == s@[start as int]);
        } else {
            assert(t.len() == 0);
        }
    }
    if j0 == n {
        proof {
            assert(u.len() == 0);
        }
        return None;
    }
    let mut acc: u32 = 0;
    let mut k = j0;
    while k < n
        invariant
            j0 <= k <= n,
            j0 < n,
            n == s@.len(),
            u == s@.skip(j0 as int),
            vt_number(s@) == parse_u8_spec(t),
            t == s@.skip(start as int),
            (if t.len() > 0 && t[0] == '+' {
                t.skip(1)
            } else {
                t
            }) == u,
            all_digits(s@.subrange(j0 as int, k as int)),
            acc as int == dec_val(s@.subrange(j0 as int, k as int)),
            acc <= 255,
        decreases n - k,
    {
        let c = s.get_char(k);
        let d = c as u32;
        proof {
            assert(u[k - j0] == s@[k as int]);
            assert(s@.subrange(j0 as int, k + 1).drop_last() =~= s@.subrange(
                j0 as int,
                k as int,
            ));
            assert(s@.subrange(j0 as int, k + 1).last() == s@[k as int]);
        }
        if d < 48 || d > 57 {
            proof {
                assert(!(48 <= u[k - j0] as int <= 57));
                assert(!all_digits(u));
            }
            return None;
        }
        let acc2 = acc * 10 + (d - 48);
        proof {
            assert(all_digits(s@.subrange(j0 as int, k + 1))) by {
                assert(forall|q: int|
                    0 <= q < k + 1 - j0 ==> #[trigger] (s@.subrange(j0 as int, k + 1)[q]) == s@[j0
                        + q]);
            }
            assert(dec_val(s@.subrange(j0 as int, k + 1)) == acc2 as int);
        }
        if acc2 > 255 {
            proof {
                if all_digits(u) {
                    assert(u.take(k + 1 - j0) =~= s@.subrange(j0 as int, k + 1));
                    lemma_dec_val_prefix(u, k + 1 - j0);
                    assert(dec_val(u) > 255);
                }
            }
            return None;
        }
        acc = acc2;
        k += 1;
    }
    proof {
        assert(u =~= s@.subrange(j0 as int, n as int));
        assert(u.len() > 0);
        assert(all_digits(u));
        assert(dec_val(u) == acc as int);
    }
    Some(acc as u8)
}

} // verus!
