//! Where the settings come from: files, by name, and the environment.
use vstd::prelude::*;
use vstd::string::StrSliceExecFns;

verus! {

/// Whether and how a settings file is read.
#[derive(Debug, Clone, Copy)]
pub enum ConfigPath<'l> {
    /// Not read.
    Ignore,
    /// Read when it exists.
    Optional(&'l str),
    /// Read; its absence is an error.
    Required(&'l str),
}

impl<'l> Default for ConfigPath<'l> {
    fn default() -> (r: ConfigPath<'l>)
        ensures
            r is Ignore,
    {
        ConfigPath::Ignore
    }
}

/// The settings sources to combine.
#[derive(Debug, Clone, Copy)]
pub struct ConfigBuilderOptions<'l> {
    /// Prefix of the environment variables to read, if any.
    pub env_prefix: Option<&'l str>,
    /// The shared settings file.
    pub default_file_path: ConfigPath<'l>,
    /// A file named after the run mode; not read by `config_sources`.
    pub run_mode_path_format: ConfigPath<'l>,
    /// The machine's own settings file, read after the shared one.
    pub local_file_path: ConfigPath<'l>,
}

impl<'l> Default for ConfigBuilderOptions<'l> {
    fn default() -> (r: ConfigBuilderOptions<'l>)
        ensures
            r.env_prefix is None,
            r.default_file_path is Ignore,
            r.run_mode_path_format is Ignore,
            r.local_file_path is Ignore,
    {
        ConfigBuilderOptions {
            env_prefix: None,
            default_file_path: ConfigPath::Ignore,
            run_mode_path_format: ConfigPath::Ignore,
            local_file_path: ConfigPath::Ignore,
        }
    }
}

/// One source of settings, in the order it is added: later ones override earlier ones.
#[derive(Debug, Clone)]
pub enum ConfigSource {
    File { name: String, required: bool },
    Environment { prefix: String },
}

/// A source as plain values.
pub enum SourceView {
    File(Seq<char>, bool),
    Environment(Seq<char>),
}

impl View for ConfigSource {
    type V = SourceView;

    open spec fn view(&self) -> SourceView {
        match self {
            ConfigSource::File { name, required } => SourceView::File(name@, *required),
            ConfigSource::Environment { prefix } => SourceView::Environment(prefix@),
        }
    }
}

/// The file source a path asks for, if any.
pub open spec fn file_source(p: ConfigPath) -> Seq<SourceView> {
    match p {
        ConfigPath::Ignore => Seq::empty(),
        ConfigPath::Optional(name) => seq![SourceView::File(name@, false)],
        ConfigPath::Required(name) => seq![SourceView::File(name@, true)],
    }
}

/// The shared file, then the local file, then the environment.
pub open spec fn planned_sources(o: ConfigBuilderOptions) -> Seq<SourceView> {
    file_source(o.default_file_path) + file_source(o.local_file_path) + match o.env_prefix {
        Some(p) => seq![SourceView::Environment(p@)],
        None => Seq::empty(),
    }
}

fn push_file(out: &mut Vec<ConfigSource>, p: ConfigPath)
    ensures
        final(out)@.map_values(|s: ConfigSource| s@) == old(out)@.map_values(
            |s: ConfigSource| s@,
        ) + file_source(p),
{
    match p {
        ConfigPath::Ignore => {},
        ConfigPath::Optional(name) => {
            out.push(ConfigSource::File { name: name.to_owned(), required: false });
        },
        ConfigPath::Required(name) => {
            out.push(ConfigSource::File { name: name.to_owned(), required: true });
        },
    }
    proof {
        assert(out@.map_values(|s: ConfigSource| s@) =~= old(out)@.map_values(
            |s: ConfigSource| s@,
        ) + file_source(p));
    }
}

/// The sources to add to a settings builder, in order.
pub fn config_sources(o: &ConfigBuilderOptions) -> (r: Vec<ConfigSource>)
    ensures
        r@.map_values(|s: ConfigSource| s@) == planned_sources(*o),
{
    let mut out: Vec<ConfigSource> = Vec::new();
    proof {
        assert(out@.map_values(|s: ConfigSource| s@) =~= Seq::<SourceView>::empty());
    }
    push_file(&mut out, o.default_file_path);
    push_file(&mut out, o.local_file_path);
    if let Some(p) = o.env_prefix {
        out.push(ConfigSource::Environment { prefix: p.to_owned() });
    }
    proof {
        assert(out@.map_values(|s: ConfigSource| s@) =~= planned_sources(*o));
    }
    out
}

/// How the program runs.
#[derive(Debug, Clone, Copy, PartialEq, Eq, Structural)]
pub enum BasicRunMode {
    Development,
    Prodution,
}

/// A name that no run mode has.
#[derive(Debug, Clone, Copy, PartialEq, Eq, Structural)]
pub enum RunModeError {
    VariantNotFound,
}

/// The code point of `c` with ASCII upper-case letters taken to lower case.
pub open spec fn ascii_lower(c: char) -> int {
    if 'A' <= c && c <= 'Z' {
        (c as u32) + 32
    } else {
        c as u32 as int
    }
}

/// Equal up to the case of ASCII letters.
pub open spec fn eq_ignore_ascii_case(a: Seq<char>, b: Seq<char>) -> bool {
    a.len() == b.len() && forall|i: int| 0 <= i < a.len() ==> ascii_lower(#[trigger] a[i])
        == ascii_lower(b[i])
}

fn lower_char(c: char) -> (r: u32)
    ensures
        r == ascii_lower(c),
{
    if 'A' <= c && c <= 'Z' {
        (c as u32) + 32
    } else {
        c as u32
    }
}

fn same_ignoring_case(a: &str, b: &str) -> (r: bool)
    ensures
        r == eq_ignore_ascii_case(a@, b@),
{
    let n = a.unicode_len();
    if n != b.unicode_len() {
        return false;
    }
    let mut i: usize = 0;
    while i < n
        invariant
            n == a@.len() == b@.len(),
            i <= n,
            forall|j: int| 0 <= j < i ==> ascii_lower(#[trigger] a@[j]) == ascii_lower(b@[j]),
        decreases n - i,
    {
        if lower_char(a.get_char(i)) != lower_char(b.get_char(i)) {
            return false;
        }
        i = i + 1;
    }
    true
}

impl BasicRunMode {
    pub open spec fn spec_name(&self) -> Seq<char> {
        match self {
            BasicRunMode::Development => "development"@,
            BasicRunMode::Prodution => "prodution"@,
        }
    }

    /// The mode's name, in lower case.
    pub fn as_ref(&self) -> (r: &'static str)
        ensures
            r@ == self.spec_name(),
    {
        match self {
            BasicRunMode::Development => "development",
            BasicRunMode::Prodution => "prodution",
        }
    }

    pub fn to_string(&self) -> (r: String)
        ensures
            r@ == self.spec_name(),
    {
        self.as_ref().to_owned()
    }

    /// The mode whose name is `s`, ignoring the case of ASCII letters.
    pub fn from_str(s: &str) -> (r: Result<BasicRunMode, RunModeError>)
        ensures
            eq_ignore_ascii_case(s@, "development"@) ==> r == Ok::<BasicRunMode, RunModeError>(
                BasicRunMode::Development,
            ),
            !eq_ignore_ascii_case(s@, "development"@) && eq_ignore_ascii_case(s@, "prodution"@)
                ==> r == Ok::<BasicRunMode, RunModeError>(BasicRunMode::Prodution),
            !eq_ignore_ascii_case(s@, "development"@) && !eq_ignore_ascii_case(s@, "prodution"@)
                ==> r == Err::<BasicRunMode, RunModeError>(RunModeError::VariantNotFound),
    {
        if same_ignoring_case(s, "development") {
            Ok(BasicRunMode::Development)
        } else if same_ignoring_case(s, "prodution") {
            Ok(BasicRunMode::Prodution)
        } else {
            Err(RunModeError::VariantNotFound)
        }
    }
}

} // verus!
