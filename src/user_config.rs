use std::path::PathBuf;

use config::builder::DefaultState;
use config::ConfigBuilder;
use config::ConfigError as SourceError;
use vstd::prelude::*;

verus! {

#[verifier::external_type_specification]
#[verifier::external_body]
pub struct ExPathBuf(std::path::PathBuf);

#[verifier::external_type_specification]
#[verifier::external_body]
pub struct ExReadError(SourceError);

#[verifier::external_type_specification]
#[verifier::external_body]
pub struct ExConfig(config::Config);

/// A character that may stand in one segment of a configuration key.
pub open spec fn is_key_char(c: char) -> bool {
    ('a' <= c && c <= 'z') || ('A' <= c && c <= 'Z') || ('0' <= c && c <= '9') || c == ' '
        || c == '_' || c == '-'
}

/// A key made of non-empty segments of key characters joined by dots, such
/// as `ui.editor`.
pub open spec fn dotted_key(k: Seq<char>) -> bool {
    &&& k.len() > 0
    &&& is_key_char(k[0])
    &&& forall|i: int|
        0 <= i < k.len() ==> #[trigger] is_key_char(k[i]) || (k[i] == '.' && i + 1 < k.len()
            && is_key_char(k[i + 1]))
}

/// `b` lies inside the table that `a` names: `a` followed by a dot starts `b`.
pub open spec fn nested(a: Seq<char>, b: Seq<char>) -> bool {
    a.len() < b.len() && b.take(a.len() as int) == a && b[a.len() as int] == '.'
}

/// No key of `keys` lies inside the table that another names.
pub open spec fn unnested(keys: Set<Seq<char>>) -> bool {
    forall|a: Seq<char>, b: Seq<char>| keys.contains(a) && keys.contains(b) ==> !nested(a, b)
}

/// Layers that override nothing.
pub open spec fn no_overrides() -> Map<Seq<char>, Seq<char>> {
    Map::empty()
}

/// The overrides that the layers hold, by key.
pub uninterp spec fn overrides_of(l: Layers) -> Map<Seq<char>, Seq<char>>;

/// The TOML texts that the layers hold as sources, in the order added.
pub uninterp spec fn sources_of(l: Layers) -> Seq<Seq<char>>;

/// The string values that a configuration holds, each under the dotted key
/// that reaches it.
pub uninterp spec fn entries_of(c: config::Config) -> Map<Seq<char>, Seq<char>>;

/// The string values of a TOML document, each under the dotted key that
/// reaches it; none where the text is not TOML.
pub uninterp spec fn toml_table(text: Seq<char>) -> Option<Map<Seq<char>, Seq<char>>>;

/// Layers of configuration waiting to be merged: sources, and overrides that
/// win over every source.
#[verifier::external_body]
pub struct Layers {
    inner: ConfigBuilder<DefaultState>,
}

impl Layers {
    /// Relies on `config::Config::builder`: starts with no source and no
    /// override.
    #[verifier::external_body]
    fn new() -> (r: Self)
        ensures
            overrides_of(r) == no_overrides(),
            sources_of(r).len() == 0,
    {
        Layers { inner: config::Config::builder() }
    }

    /// Relies on `ConfigBuilder::set_override`: sets `key` to the string
    /// `value` over every source. A dotted key always parses.
    #[verifier::external_body]
    fn set_override(self, key: &str, value: &str) -> (r: Result<Self, SourceError>)
        requires
            dotted_key(key@),
        ensures
            r is Ok,
            r matches Ok(l) ==> overrides_of(l) == overrides_of(self).insert(key@, value@),
            r matches Ok(l) ==> sources_of(l) == sources_of(self),
    {
        match self.inner.set_override(key, value) {
            Ok(b) => Ok(Layers { inner: b }),
            Err(e) => Err(e),
        }
    }

    /// Relies on `ConfigBuilder::add_source` with `config::File::from_str`:
    /// adds `text` as a source, read as TOML when the layers are merged. Only
    /// the default merge tools are added; their one top-level key,
    /// `merge-tools`, is read without an index.
    #[verifier::external_body]
    fn add_toml(self, text: &str) -> (r: Self)
        requires
            text@ == DEFAULT_MERGE_TOOLS@,
        ensures
            sources_of(r) == sources_of(self).push(text@),
            overrides_of(r) == overrides_of(self),
    {
        Layers { inner: self.inner.add_source(config::File::from_str(text, config::FileFormat::Toml)) }
    }

    /// Relies on `ConfigBuilder::build`: merges the sources in order, then
    /// the overrides; fails only where a source cannot be read. Overrides of
    /// keys nested in one another are merged in no fixed order, so only
    /// unnested ones are stated.
    #[verifier::external_body]
    fn build(self) -> (r: Result<config::Config, SourceError>)
        requires
            forall|k: Seq<char>| overrides_of(self).contains_key(k) ==> dotted_key(k),
        ensures
            sources_of(self).len() == 0 ==> r is Ok,
            sources_of(self).len() == 0 && unnested(overrides_of(self).dom()) ==> r is Ok && entries_of(r->Ok_0) == overrides_of(self),
            sources_of(self).len() == 1 && overrides_of(self).dom().is_empty() ==> (r is Ok <==> toml_table(sources_of(self)[0]) is Some),
            sources_of(self).len() == 1 && overrides_of(self).dom().is_empty() && r is Ok ==> entries_of(r->Ok_0) == toml_table(sources_of(self)[0])->0,
    {
        self.inner.build()
    }
}

/// Why the configuration could not be assembled.
#[derive(Debug)]
pub enum ConfigError {
    /// A source could not be read or merged.
    ConfigReadError(SourceError),
    /// Both the platform's configuration file and the one in the home
    /// directory exist.
    AmbiguousSource(PathBuf, PathBuf),
}

impl ConfigError {
    pub fn from_read_error(e: SourceError) -> (r: Self)
        ensures
            r == ConfigError::ConfigReadError(e),
    {
        ConfigError::ConfigReadError(e)
    }
}

/// Chooses the configuration file. A path named by the environment wins.
/// Otherwise `platform_path` and `home_path` are the candidate files that
/// exist: with both there is no telling which is meant, with one that one is
/// used, and with none there is no file.
pub fn config_path(
    env_path: Option<PathBuf>,
    platform_path: Option<PathBuf>,
    home_path: Option<PathBuf>,
) -> (r: Result<Option<PathBuf>, ConfigError>)
    ensures
        env_path is Some ==> r == Ok::<Option<PathBuf>, ConfigError>(env_path),
        env_path is None ==> match (platform_path, home_path) {
            (Some(a), Some(b)) => r == Err::<Option<PathBuf>, ConfigError>(
                ConfigError::AmbiguousSource(a, b),
            ),
            (Some(a), None) => r == Ok::<Option<PathBuf>, ConfigError>(Some(a)),
            (None, b) => r == Ok::<Option<PathBuf>, ConfigError>(b),
        },
{
    match env_path {
        Some(p) => Ok(Some(p)),
        None => match (platform_path, home_path) {
            (Some(a), Some(b)) => Err(ConfigError::AmbiguousSource(a, b)),
            (Some(a), None) => Ok(Some(a)),
            (None, b) => Ok(b),
        },
    }
}

/// Key and value of each override, as character sequences.
pub open spec fn pairs_view(v: Seq<(String, String)>) -> Seq<(Seq<char>, Seq<char>)> {
    v.map_values(|p: (String, String)| (p.0@, p.1@))
}

pub open spec fn opt_view(o: Option<String>) -> Option<Seq<char>> {
    match o {
        Some(s) => Some(s@),
        None => None,
    }
}

/// One override of `key` where a value is given, none otherwise.
pub open spec fn override_if(key: Seq<char>, value: Option<Seq<char>>) -> Seq<(Seq<char>, Seq<char>)> {
    match value {
        Some(v) => seq![(key, v)],
        None => Seq::empty(),
    }
}

/// What the environment sets that the configuration files may override:
/// colour off under `NO_COLOR`, the pager from `PAGER`, and the editor from
/// `VISUAL`, or from `EDITOR` where `VISUAL` is unset.
pub open spec fn base_overrides(
    no_color: bool,
    pager: Option<Seq<char>>,
    visual: Option<Seq<char>>,
    editor: Option<Seq<char>>,
) -> Seq<(Seq<char>, Seq<char>)> {
    (if no_color {
        seq![("ui.color"@, "never"@)]
    } else {
        Seq::empty()
    }) + override_if("ui.pager"@, pager) + override_if(
        "ui.editor"@,
        if visual is Some {
            visual
        } else {
            editor
        },
    )
}

/// What the `JJ_*` variables set over every configuration file, in order:
/// user name, e-mail, timestamp, operation timestamp, host and user name,
/// and the editor.
pub open spec fn user_overrides(
    user: Option<Seq<char>>,
    email: Option<Seq<char>>,
    timestamp: Option<Seq<char>>,
    op_timestamp: Option<Seq<char>>,
    op_hostname: Option<Seq<char>>,
    op_username: Option<Seq<char>>,
    editor: Option<Seq<char>>,
) -> Seq<(Seq<char>, Seq<char>)> {
    override_if("user.name"@, user) + override_if("user.email"@, email) + override_if(
        "user.timestamp"@,
        timestamp,
    ) + override_if("operation.timestamp"@, op_timestamp) + override_if(
        "operation.hostname"@,
        op_hostname,
    ) + override_if("operation.username"@, op_username) + override_if("ui.editor"@, editor)
}

fn push_override(out: &mut Vec<(String, String)>, key: &str, value: Option<String>)
    ensures
        pairs_view(final(out)@) == pairs_view(old(out)@) + override_if(key@, opt_view(value)),
{
    match value {
        Some(v) => {
            let k = key.to_string();
            let ghost vv = v@;
            out.push((k, v));
            proof {
                assert(pairs_view(out@) =~= pairs_view(old(out)@) + override_if(key@, Some(vv)));
            }
        },
        None => {
            proof {
                assert(pairs_view(out@) =~= pairs_view(old(out)@) + Seq::empty());
            }
        },
    }
}

/// The overrides that the environment contributes beneath the files.
pub fn env_base_overrides(
    no_color: bool,
    pager: Option<String>,
    visual: Option<String>,
    editor: Option<String>,
) -> (r: Vec<(String, String)>)
    ensures
        pairs_view(r@) == base_overrides(no_color, opt_view(pager), opt_view(visual), opt_view(editor)),
{
    let mut out: Vec<(String, String)> = Vec::new();
    let never: Option<String> = if no_color {
        Some("never".to_string())
    } else {
        None
    };
    proof {
        assert(pairs_view(out@) =~= Seq::empty());
    }
    push_override(&mut out, "ui.color", never);
    proof {
        assert(override_if("ui.color"@, opt_view(never)) =~= (if no_color {
            seq![("ui.color"@, "never"@)]
        } else {
            Seq::empty()
        }));
    }
    push_override(&mut out, "ui.pager", pager);
    let chosen_editor = match visual {
        Some(v) => Some(v),
        None => editor,
    };
    proof {
        assert(opt_view(chosen_editor) == if opt_view(visual) is Some {
            opt_view(visual)
        } else {
            opt_view(editor)
        });
    }
    push_override(&mut out, "ui.editor", chosen_editor);
    proof {
        assert(pairs_view(out@) =~= base_overrides(
            no_color,
            opt_view(pager),
            opt_view(visual),
            opt_view(editor),
        ));
    }
    out
}

/// The overrides that the `JJ_*` variables contribute above the files.
pub fn env_overrides_list(
    user: Option<String>,
    email: Option<String>,
    timestamp: Option<String>,
    op_timestamp: Option<String>,
    op_hostname: Option<String>,
    op_username: Option<String>,
    editor: Option<String>,
) -> (r: Vec<(String, String)>)
    ensures
        pairs_view(r@) == user_overrides(
            opt_view(user),
            opt_view(email),
            opt_view(timestamp),
            opt_view(op_timestamp),
            opt_view(op_hostname),
            opt_view(op_username),
            opt_view(editor),
        ),
{
    let mut out: Vec<(String, String)> = Vec::new();
    proof {
        assert(pairs_view(out@) =~= Seq::empty());
    }
    push_override(&mut out, "user.name", user);
    push_override(&mut out, "user.email", email);
    push_override(&mut out, "user.timestamp", timestamp);
    push_override(&mut out, "operation.timestamp", op_timestamp);
    push_override(&mut out, "operation.hostname", op_hostname);
    push_override(&mut out, "operation.username", op_username);
    push_override(&mut out, "ui.editor", editor);
    proof {
        assert(pairs_view(out@) =~= user_overrides(
            opt_view(user),
            opt_view(email),
            opt_view(timestamp),
            opt_view(op_timestamp),
            opt_view(op_hostname),
            opt_view(op_username),
            opt_view(editor),
        ));
    }
    out
}

} // verus!

verus! {

/// The merge tools known without any configuration.
pub const DEFAULT_MERGE_TOOLS: &'static str = r#"
[merge-tools]
meld.merge-args    = ["$left", "$base", "$right",
                      "-o", "$output", "--auto-merge"]
kdiff3.merge-args  = ["$base", "$left", "$right",
                      "-o", "$output", "--auto"]
vimdiff.program = "vim"
vimdiff.merge-args = ["-f", "-d", "$output", "-M",
                      "$left", "$base", "$right",
                      "-c", "wincmd J", "-c", "set modifiable",
                      "-c", "set write"]
vimdiff.merge-tool-edits-conflict-markers=true
"#;

/// The map that a list of overrides leaves, later pairs winning over
/// earlier ones of the same key.
pub open spec fn pairs_map(s: Seq<(Seq<char>, Seq<char>)>) -> Map<Seq<char>, Seq<char>>
    decreases s.len(),
{
    if s.len() == 0 {
        Map::empty()
    } else {
        pairs_map(s.drop_last()).insert(s.last().0, s.last().1)
    }
}

/// Every key of the list is a dotted key.
pub open spec fn all_dotted(s: Seq<(Seq<char>, Seq<char>)>) -> bool {
    forall|i: int| 0 <= i < s.len() ==> dotted_key(#[trigger] s[i].0)
}

/// A key of two segments: dotted, with exactly one dot.
pub open spec fn two_segments(k: Seq<char>) -> bool {
    dotted_key(k) && exists|j: int| #[trigger] dot_only_at(k, j)
}

pub open spec fn dot_only_at(k: Seq<char>, j: int) -> bool {
    0 <= j < k.len() && k[j] == '.' && forall|i: int| 0 <= i < k.len() && i != j ==> k[i] != '.'
}

/// Every key of the list has two segments.
pub open spec fn all_two_segments(s: Seq<(Seq<char>, Seq<char>)>) -> bool {
    forall|i: int| 0 <= i < s.len() ==> two_segments(#[trigger] s[i].0)
}

/// A configuration that holds exactly the given overrides, later pairs
/// winning over earlier ones of the same key.
pub fn config_from_overrides(pairs: &Vec<(String, String)>) -> (r: Result<config::Config, ConfigError>)
    requires
        all_dotted(pairs_view(pairs@)),
    ensures
        r is Ok,
        unnested(pairs_map(pairs_view(pairs@)).dom()) ==> (r matches Ok(c) && entries_of(c)
            == pairs_map(pairs_view(pairs@))),
{
    let mut layers = Layers::new();
    let mut i: usize = 0;
    proof {
        assert(pairs_view(pairs@.take(0)) =~= Seq::empty());
    }
    while i < pairs.len()
        invariant
            i <= pairs@.len(),
            all_dotted(pairs_view(pairs@)),
            sources_of(layers).len() == 0,
            overrides_of(layers) == pairs_map(pairs_view(pairs@.take(i as int))),
            forall|k: Seq<char>| overrides_of(layers).contains_key(k) ==> dotted_key(k),
        decreases pairs@.len() - i,
    {
        proof {
            assert(pairs_view(pairs@)[i as int].0 == pairs@[i as int].0@);
            assert(pairs_view(pairs@.take(i + 1)) =~= pairs_view(pairs@.take(i as int)).push(
                (pairs@[i as int].0@, pairs@[i as int].1@),
            ));
            assert(pairs_view(pairs@.take(i + 1)).drop_last() == pairs_view(pairs@.take(i as int)));
        }
        match layers.set_override(pairs[i].0.as_str(), pairs[i].1.as_str()) {
            Ok(l) => layers = l,
            Err(e) => return Err(ConfigError::from_read_error(e)),
        }
        i = i + 1;
    }
    proof {
        assert(pairs@.take(pairs@.len() as int) == pairs@);
    }
    match layers.build() {
        Ok(c) => Ok(c),
        Err(e) => Err(ConfigError::from_read_error(e)),
    }
}

proof fn lemma_all_concat(a: Seq<(Seq<char>, Seq<char>)>, b: Seq<(Seq<char>, Seq<char>)>)
    requires
        all_two_segments(a),
        all_two_segments(b),
    ensures
        all_two_segments(a + b),
{
    assert forall|i: int| 0 <= i < (a + b).len() implies two_segments(#[trigger] (a + b)[i].0) by {
        if i >= a.len() {
            assert((a + b)[i] == b[i - a.len()]);
        } else {
            assert((a + b)[i] == a[i]);
        }
    }
}

proof fn lemma_override_if_two_segments(k: Seq<char>, v: Option<Seq<char>>)
    requires
        two_segments(k),
    ensures
        all_two_segments(override_if(k, v)),
{
}

/// Keys of two segments never lie inside one another.
proof fn lemma_two_segments_unnested(a: Seq<char>, b: Seq<char>)
    requires
        two_segments(a),
        two_segments(b),
    ensures
        !nested(a, b),
{
    if nested(a, b) {
        let ja = choose|j: int| dot_only_at(a, j);
        let jb = choose|j: int| dot_only_at(b, j);
        assert(b[ja] == b.take(a.len() as int)[ja]);
        assert(b[ja] == '.');
        assert(b[a.len() as int] == '.');
    }
}

/// The map that a list of two-segment keys leaves holds no nested keys.
proof fn lemma_pairs_map_unnested(s: Seq<(Seq<char>, Seq<char>)>)
    requires
        all_two_segments(s),
    ensures
        forall|k: Seq<char>| pairs_map(s).contains_key(k) ==> two_segments(k),
        unnested(pairs_map(s).dom()),
        all_dotted(s),
    decreases s.len(),
{
    if s.len() > 0 {
        assert(all_two_segments(s.drop_last())) by {
            assert forall|i: int| 0 <= i < s.drop_last().len() implies two_segments(
                #[trigger] s.drop_last()[i].0,
            ) by {
                assert(s.drop_last()[i] == s[i]);
            }
        }
        lemma_pairs_map_unnested(s.drop_last());
        assert(two_segments(s[s.len() - 1].0));
    }
    assert forall|a: Seq<char>, b: Seq<char>|
        pairs_map(s).dom().contains(a) && pairs_map(s).dom().contains(b) implies !nested(a, b) by {
        lemma_two_segments_unnested(a, b);
    }
    assert forall|i: int| 0 <= i < s.len() implies dotted_key(#[trigger] s[i].0) by {
        assert(two_segments(s[i].0));
    }
}

proof fn lemma_known_keys()
    ensures
        two_segments("ui.color"@),
        two_segments("ui.pager"@),
        two_segments("ui.editor"@),
        two_segments("user.name"@),
        two_segments("user.email"@),
        two_segments("user.timestamp"@),
        two_segments("operation.timestamp"@),
        two_segments("operation.hostname"@),
        two_segments("operation.username"@),
{
    reveal_strlit("ui.color");
    reveal_strlit("ui.pager");
    reveal_strlit("ui.editor");
    reveal_strlit("user.name");
    reveal_strlit("user.email");
    reveal_strlit("user.timestamp");
    reveal_strlit("operation.timestamp");
    reveal_strlit("operation.hostname");
    reveal_strlit("operation.username");
    assert(dot_only_at("ui.color"@, 2));
    assert(dot_only_at("ui.pager"@, 2));
    assert(dot_only_at("ui.editor"@, 2));
    assert(dot_only_at("user.name"@, 4));
    assert(dot_only_at("user.email"@, 4));
    assert(dot_only_at("user.timestamp"@, 4));
    assert(dot_only_at("operation.timestamp"@, 9));
    assert(dot_only_at("operation.hostname"@, 9));
    assert(dot_only_at("operation.username"@, 9));
}

/// Environment variables that configuration files override, as a
/// configuration.
pub fn env_base(
    no_color: bool,
    pager: Option<String>,
    visual: Option<String>,
    editor: Option<String>,
) -> (r: Result<config::Config, ConfigError>)
    ensures
        r matches Ok(c) && entries_of(c) == pairs_map(
            base_overrides(no_color, opt_view(pager), opt_view(visual), opt_view(editor)),
        ),
{
    let pairs = env_base_overrides(no_color, pager, visual, editor);
    proof {
        lemma_known_keys();
        let color: Seq<(Seq<char>, Seq<char>)> = if no_color {
            seq![("ui.color"@, "never"@)]
        } else {
            Seq::empty()
        };
        let ed = if opt_view(visual) is Some {
            opt_view(visual)
        } else {
            opt_view(editor)
        };
        assert(all_two_segments(color));
        lemma_override_if_two_segments("ui.pager"@, opt_view(pager));
        lemma_override_if_two_segments("ui.editor"@, ed);
        lemma_all_concat(color, override_if("ui.pager"@, opt_view(pager)));
        lemma_all_concat(color + override_if("ui.pager"@, opt_view(pager)), override_if("ui.editor"@, ed));
        lemma_pairs_map_unnested(pairs_view(pairs@));
    }
    config_from_overrides(&pairs)
}

/// Environment variables that override configuration files, as a
/// configuration.
pub fn env_overrides(
    user: Option<String>,
    email: Option<String>,
    timestamp: Option<String>,
    op_timestamp: Option<String>,
    op_hostname: Option<String>,
    op_username: Option<String>,
    editor: Option<String>,
) -> (r: Result<config::Config, ConfigError>)
    ensures
        r matches Ok(c) && entries_of(c) == pairs_map(
            user_overrides(
                opt_view(user),
                opt_view(email),
                opt_view(timestamp),
                opt_view(op_timestamp),
                opt_view(op_hostname),
                opt_view(op_username),
                opt_view(editor),
            ),
        ),
{
    let pairs = env_overrides_list(user, email, timestamp, op_timestamp, op_hostname, op_username, editor);
    proof {
        lemma_known_keys();
        let o1 = override_if("user.name"@, opt_view(user));
        let o2 = override_if("user.email"@, opt_view(email));
        let o3 = override_if("user.timestamp"@, opt_view(timestamp));
        let o4 = override_if("operation.timestamp"@, opt_view(op_timestamp));
        let o5 = override_if("operation.hostname"@, opt_view(op_hostname));
        let o6 = override_if("operation.username"@, opt_view(op_username));
        let o7 = override_if("ui.editor"@, opt_view(editor));
        lemma_override_if_two_segments("user.name"@, opt_view(user));
        lemma_override_if_two_segments("user.email"@, opt_view(email));
        lemma_override_if_two_segments("user.timestamp"@, opt_view(timestamp));
        lemma_override_if_two_segments("operation.timestamp"@, opt_view(op_timestamp));
        lemma_override_if_two_segments("operation.hostname"@, opt_view(op_hostname));
        lemma_override_if_two_segments("operation.username"@, opt_view(op_username));
        lemma_override_if_two_segments("ui.editor"@, opt_view(editor));
        lemma_all_concat(o1, o2);
        lemma_all_concat(o1 + o2, o3);
        lemma_all_concat(o1 + o2 + o3, o4);
        lemma_all_concat(o1 + o2 + o3 + o4, o5);
        lemma_all_concat(o1 + o2 + o3 + o4 + o5, o6);
        lemma_all_concat(o1 + o2 + o3 + o4 + o5 + o6, o7);
        lemma_pairs_map_unnested(pairs_view(pairs@));
    }
    config_from_overrides(&pairs)
}

/// The merge tools known without any configuration, as a configuration:
/// what the TOML text of `DEFAULT_MERGE_TOOLS` holds, where it is TOML.
pub fn default_mergetool_config() -> (r: Result<config::Config, ConfigError>)
    ensures
        r is Ok <==> toml_table(DEFAULT_MERGE_TOOLS@) is Some,
        r matches Ok(c) ==> entries_of(c) == toml_table(DEFAULT_MERGE_TOOLS@)->0,
        r matches Err(e) ==> e is ConfigReadError,
{
    let layers = Layers::new().add_toml(DEFAULT_MERGE_TOOLS);
    proof {
        assert(sources_of(layers) =~= seq![DEFAULT_MERGE_TOOLS@]);
    }
    match layers.build() {
        Ok(c) => Ok(c),
        Err(e) => Err(ConfigError::from_read_error(e)),
    }
}

} // verus!
