//! Configuration values: language server defaults, editor settings and the
//! terminal's colour support.
use vstd::prelude::*;

verus! {

/// The screen the application shows.
#[derive(Debug, Clone, Copy, PartialEq, Eq, Structural)]
pub enum Mode {
    Home,
}

impl Mode {
    /// The home screen.
    pub fn default() -> (r: Mode)
        ensures
            r == Mode::Home,
    {
        Mode::Home
    }
}

/// Outcome of importing a file into a session.
#[derive(Debug, Clone, Copy, PartialEq, Eq, Structural)]
pub enum ImportStatus {
    Success,
    Failure,
    Skipped,
}

/// The refusal of a producer whose consumer has shut down.
#[derive(Debug, Clone, Copy, PartialEq, Eq, Structural)]
pub struct InjectorShutdown;

/// How a file is recognised as belonging to a language.
#[derive(Debug)]
pub enum FileType {
    /// The file's extension, or its whole name when it has none.
    Extension(String),
    /// A suffix of the file's absolute path.
    Suffix(String),
}

/// Soft-wrap settings; each unset value falls back to the global setting.
#[derive(Debug)]
pub struct SoftWrap {
    pub enable: Option<bool>,
    pub max_wrap: Option<u16>,
    pub max_indent_retain: Option<u16>,
    pub wrap_indicator: Option<String>,
    pub wrap_at_text_width: Option<bool>,
}

impl SoftWrap {
    /// Nothing set.
    pub fn default() -> (r: SoftWrap)
        ensures
            r.enable is None,
            r.max_wrap is None,
            r.max_indent_retain is None,
            r.wrap_indicator is None,
            r.wrap_at_text_width is None,
    {
        SoftWrap {
            enable: None,
            max_wrap: None,
            max_indent_retain: None,
            wrap_indicator: None,
            wrap_at_text_width: None,
        }
    }
}

/// The error of `str::parse::<bool>`, seen here as an opaque value.
#[verifier::external_type_specification]
#[verifier::external_body]
pub struct ExParseBoolError(std::str::ParseBoolError);

/// Parses a boolean with `str::parse::<bool>`. Trusted: as std documents, exactly
/// the texts `true` and `false` are accepted, every other text is refused.
#[verifier::external_body]
fn parse_bool(s: &str) -> (r: Result<bool, std::str::ParseBoolError>)
    ensures
        r matches Ok(b) ==> (b && s@ == "true"@) || (!b && s@ == "false"@),
        r is Err ==> s@ != "true"@ && s@ != "false"@,
{
    s.parse::<bool>()
}

/// Automatic pairing of brackets and quotes: on or off, or an explicit list of pairs.
#[derive(Debug)]
pub enum AutoPairConfig {
    Enable(bool),
    Pairs(Vec<(char, char)>),
}

impl AutoPairConfig {
    /// Pairing on, with the default pairs.
    pub fn default() -> (r: AutoPairConfig)
        ensures
            r == AutoPairConfig::Enable(true),
    {
        AutoPairConfig::Enable(true)
    }

    /// The setting a runtime option gives: `true` or `false`; any other text is refused.
    pub fn from_str(s: &str) -> (r: Result<AutoPairConfig, std::str::ParseBoolError>)
        ensures
            s@ == "true"@ ==> r matches Ok(AutoPairConfig::Enable(true)),
            s@ == "false"@ ==> r matches Ok(AutoPairConfig::Enable(false)),
            s@ != "true"@ && s@ != "false"@ ==> r is Err,
    {
        proof {
            reveal_strlit("true");
            reveal_strlit("false");
            assert("true"@.len() != "false"@.len());
        }
        match parse_bool(s) {
            Ok(enable) => Ok(AutoPairConfig::Enable(enable)),
            Err(e) => Err(e),
        }
    }
}

/// How long a language server request may take, in seconds, unless configured.
pub fn default_timeout() -> (r: u64)
    ensures
        r == 20,
{
    20
}

/// The message with which a tab width is refused.
pub open spec fn tab_width_message() -> Seq<char> {
    "tab width must be a value from 1 to 16 inclusive"@
}

/// Accepts a tab width from 1 to 16.
pub fn check_tab_width(n: usize) -> (r: Result<usize, String>)
    ensures
        1 <= n <= 16 ==> r == Ok::<usize, String>(n),
        !(1 <= n <= 16) ==> (r matches Err(m) && m@ == tab_width_message()),
{
    if n > 0 && n <= 16 {
        Ok(n)
    } else {
        Err(crate::text::string_of("tab width must be a value from 1 to 16 inclusive"))
    }
}

/// The extended capabilities of the terminal's terminfo entry that tell of 24-bit
/// colour.
#[derive(Debug, Clone, Copy, PartialEq, Eq, Structural)]
pub struct TermCapabilities {
    pub rgb: bool,
    pub tc: bool,
    pub setrgbf: bool,
    pub setrgbb: bool,
}

/// Whether the terminal shows 24-bit colour: `COLORTERM` says `truecolor` or
/// `24bit`, or the terminfo entry (when one was read) has `RGB` or `Tc`, or both
/// `setrgbf` and `setrgbb`.
pub open spec fn supports_true_color(colorterm: Option<Seq<char>>, terminfo: Option<TermCapabilities>) -> bool {
    ||| colorterm == Some("truecolor"@)
    ||| colorterm == Some("24bit"@)
    ||| terminfo matches Some(t) && (t.rgb || t.tc || (t.setrgbf && t.setrgbb))
}

/// Whether the terminal shows 24-bit colour (see [`supports_true_color`]), given the
/// value of `COLORTERM` if it is set and the terminfo capabilities if they were read.
pub fn true_color(colorterm: Option<&str>, terminfo: Option<TermCapabilities>) -> (r: bool)
    ensures
        r == supports_true_color(
            match colorterm {
                Some(c) => Some(c@),
                None => None,
            },
            terminfo,
        ),
{
    if let Some(value) = colorterm {
        let truecolor = crate::text::string_of("truecolor");
        let bits = crate::text::string_of("24bit");
        let given = crate::text::string_of(value);
        if given == truecolor || given == bits {
            return true;
        }
    }
    match terminfo {
        Some(t) => t.rgb || t.tc || (t.setrgbf && t.setrgbb),
        None => false,
    }
}

} // verus!
