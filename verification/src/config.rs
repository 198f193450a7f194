//! What the bundler is told.
use vstd::prelude::*;

use crate::options::{given, given_text};
use crate::sorted::ascending;
use crate::text::{hold_texts, optional_text, same_text, texts};

verus! {

/// The options of a bundle.
#[derive(Debug)]
pub struct BundleOptions {
    pub entry: String,
    pub format: String,
    pub minify: bool,
    pub banner: Option<String>,
    pub footer: Option<String>,
    pub preamble: Option<String>,
    /// Global names and what they are replaced with, in the ascending order of the names.
    pub define: Vec<(String, String)>,
    pub sourcemap: bool,
    pub drop_console: bool,
    pub jsx_runtime: String,
    pub jsx_factory: String,
    pub jsx_fragment: String,
    pub import_source: String,
    pub target: String,
}

/// The pairs as characters.
pub open spec fn pair_texts(pairs: Seq<(String, String)>) -> Seq<(Seq<char>, Seq<char>)> {
    pairs.map_values(|pair: (String, String)| (pair.0@, pair.1@))
}

/// The first text of each pair.
pub open spec fn keys(pairs: Seq<(Seq<char>, Seq<char>)>) -> Seq<Seq<char>> {
    pairs.map_values(|pair: (Seq<char>, Seq<char>)| pair.0)
}

impl BundleOptions {
    /// The defined names stand in ascending order, so none is defined twice.
    pub open spec fn wf(&self) -> bool {
        ascending(keys(pair_texts(self.define@)))
    }
}

impl Default for BundleOptions {
    fn default() -> (r: Self)
        ensures
            r.wf(),
            r.entry@.len() == 0,
            r.format@.len() == 0,
            !r.minify,
            r.banner is None,
            r.footer is None,
            r.preamble is None,
            r.define@.len() == 0,
            !r.sourcemap,
            !r.drop_console,
            r.jsx_runtime@.len() == 0,
            r.jsx_factory@.len() == 0,
            r.jsx_fragment@.len() == 0,
            r.import_source@.len() == 0,
            r.target@.len() == 0,
    {
        BundleOptions {
            entry: String::new(),
            format: String::new(),
            minify: false,
            banner: None,
            footer: None,
            preamble: None,
            define: Vec::new(),
            sourcemap: false,
            drop_console: false,
            jsx_runtime: String::new(),
            jsx_factory: String::new(),
            jsx_fragment: String::new(),
            import_source: String::new(),
            target: String::new(),
        }
    }
}

/// The module format of a bundle.
#[derive(Debug, Clone, Copy, PartialEq, Eq, Structural)]
pub enum OutputFormat {
    Esm,
    Cjs,
    Iife,
}

/// The format that a text stands for; any but two known ones is a wrapping function.
pub open spec fn format_of(format: Seq<char>) -> OutputFormat {
    if format == "esm"@ {
        OutputFormat::Esm
    } else if format == "cjs"@ {
        OutputFormat::Cjs
    } else {
        OutputFormat::Iife
    }
}

/// The format that a text stands for.
pub fn output_format(format: &str) -> (r: OutputFormat)
    ensures
        r == format_of(format@),
{
    if same_text(format, "esm") {
        OutputFormat::Esm
    } else if same_text(format, "cjs") {
        OutputFormat::Cjs
    } else {
        OutputFormat::Iife
    }
}

/// How a specifier without an extension, or with another one, finds its file.
#[derive(Debug)]
pub struct ResolveConfig {
    /// The extensions that are tried, in order.
    pub extensions: Vec<String>,
    /// For an extension that is written, those that are tried for it, in order.
    pub extension_alias: Vec<(String, Vec<String>)>,
}

/// An extension with those that are tried for it, as characters.
pub open spec fn alias_texts(aliases: Seq<(String, Vec<String>)>) -> Seq<(Seq<char>, Seq<Seq<char>>)> {
    aliases.map_values(|alias: (String, Vec<String>)| (alias.0@, texts(alias.1@)))
}

/// TypeScript is tried before JavaScript, and stands in for it.
pub open spec fn is_resolve_config(config: ResolveConfig) -> bool {
    &&& texts(config.extensions@) == seq![".tsx"@, ".ts"@, ".jsx"@, ".js"@, ".json"@]
    &&& alias_texts(config.extension_alias@) == seq![
        (".js"@, seq![".ts"@, ".tsx"@, ".js"@, ".jsx"@]),
        (".jsx"@, seq![".tsx"@, ".ts"@, ".jsx"@, ".js"@]),
    ]
}

fn four(a: &str, b: &str, c: &str, d: &str) -> (r: Vec<String>)
    ensures
        texts(r@) == seq![a@, b@, c@, d@],
{
    let mut r: Vec<String> = Vec::new();
    r.push(a.to_owned());
    r.push(b.to_owned());
    r.push(c.to_owned());
    r.push(d.to_owned());
    assert(texts(r@) == seq![a@, b@, c@, d@]);
    r
}

/// How the bundler finds files.
pub fn build_rolldown_resolve_options() -> (r: ResolveConfig)
    ensures
        is_resolve_config(r),
{
    let mut extensions = four(".tsx", ".ts", ".jsx", ".js");
    let ghost first = extensions@;
    extensions.push(".json".to_owned());
    assert(texts(extensions@) == texts(first).push(".json"@));
    let mut extension_alias: Vec<(String, Vec<String>)> = Vec::new();
    extension_alias.push((".js".to_owned(), four(".ts", ".tsx", ".js", ".jsx")));
    extension_alias.push((".jsx".to_owned(), four(".tsx", ".ts", ".jsx", ".js")));
    assert(alias_texts(extension_alias@) == seq![
        (".js"@, seq![".ts"@, ".tsx"@, ".js"@, ".jsx"@]),
        (".jsx"@, seq![".tsx"@, ".ts"@, ".jsx"@, ".js"@]),
    ]);
    assert(texts(extensions@) == seq![".tsx"@, ".ts"@, ".jsx"@, ".js"@, ".json"@]);
    ResolveConfig { extensions, extension_alias }
}

/// How the bundler turns JSX into calls.
#[derive(Debug)]
pub struct JsxConfig {
    pub runtime: String,
    pub import_source: Option<String>,
    pub pragma: Option<String>,
    pub pragma_frag: Option<String>,
}

/// How the bundler transforms modules.
#[derive(Debug)]
pub struct TransformConfig {
    /// Left out where the bundler's own defaults are asked for.
    pub jsx: Option<JsxConfig>,
    pub target: Option<String>,
}

/// Whether the options ask for anything but the bundler's own way with JSX.
pub open spec fn asks_for_jsx(opts: &BundleOptions) -> bool {
    ||| opts.jsx_runtime@ != "automatic"@
    ||| opts.jsx_factory@.len() > 0
    ||| opts.jsx_fragment@.len() > 0
    ||| opts.import_source@.len() > 0
}

/// The transformation that the options ask for.
pub open spec fn is_transform_config(config: TransformConfig, opts: &BundleOptions) -> bool {
    &&& config.jsx is Some <==> asks_for_jsx(opts)
    &&& config.jsx matches Some(jsx) ==> {
        &&& jsx.runtime@ == opts.jsx_runtime@
        &&& optional_text(jsx.import_source) == given(opts.import_source@)
        &&& optional_text(jsx.pragma) == given(opts.jsx_factory@)
        &&& optional_text(jsx.pragma_frag) == given(opts.jsx_fragment@)
    }
    &&& optional_text(config.target) == given(opts.target@)
}

/// The transformation that the options ask for.
pub fn build_rolldown_transform_options(opts: &BundleOptions) -> (r: TransformConfig)
    ensures
        is_transform_config(r, opts),
{
    let wanted = !same_text(opts.jsx_runtime.as_str(), "automatic")
        || !opts.jsx_factory.as_str().is_empty() || !opts.jsx_fragment.as_str().is_empty()
        || !opts.import_source.as_str().is_empty();
    let jsx = if wanted {
        Some(
            JsxConfig {
                runtime: opts.jsx_runtime.clone(),
                import_source: given_text(opts.import_source.as_str()),
                pragma: given_text(opts.jsx_factory.as_str()),
                pragma_frag: given_text(opts.jsx_fragment.as_str()),
            },
        )
    } else {
        None
    };
    TransformConfig { jsx, target: given_text(opts.target.as_str()) }
}

/// How the bundler minifies.
#[derive(Debug, Clone, Copy, PartialEq, Eq, Structural)]
pub enum MinifyConfig {
    /// As it does on its own.
    Standard,
    /// As small as it can, with each choice made here.
    Detailed {
        /// Whether calls of `console` are dropped.
        drop_console: bool,
        /// Whether top-level names are shortened too.
        mangle_top_level: bool,
        /// Whether functions and classes keep their names.
        mangle_keep_names: bool,
        mangle_debug: bool,
        default_target: bool,
        remove_whitespace: bool,
    },
}

/// How a bundle is minified: as the bundler does on its own, unless calls of `console` are to be
/// dropped.
pub open spec fn minify_choice(drop_console: bool) -> MinifyConfig {
    if drop_console {
        MinifyConfig::Detailed {
            drop_console: true,
            mangle_top_level: false,
            mangle_keep_names: false,
            mangle_debug: false,
            default_target: true,
            remove_whitespace: true,
        }
    } else {
        MinifyConfig::Standard
    }
}

/// How a bundle is minified.
pub fn build_minify_options(drop_console: bool) -> (r: MinifyConfig)
    ensures
        r == minify_choice(drop_console),
{
    if !drop_console {
        return MinifyConfig::Standard;
    }
    MinifyConfig::Detailed {
        drop_console: true,
        mangle_top_level: false,
        mangle_keep_names: false,
        mangle_debug: false,
        default_target: true,
        remove_whitespace: true,
    }
}

/// What the bundler is told.
#[derive(Debug)]
pub struct BundleConfig {
    /// The name of the only chunk.
    pub name: String,
    /// The module from which the bundle starts.
    pub import: String,
    pub cwd: String,
    /// The modules that stay outside the bundle.
    pub external: Option<Vec<String>>,
    /// The file that the bundle is written to.
    pub file: String,
    pub format: OutputFormat,
    /// Whether a source map is made; the code does not point to it.
    pub hidden_sourcemap: bool,
    pub banner: Option<String>,
    pub footer: Option<String>,
    pub define: Option<Vec<(String, String)>>,
    pub resolve: ResolveConfig,
    pub transform: TransformConfig,
    pub treeshake: bool,
    pub minify: Option<MinifyConfig>,
}

/// Whether a config says what the options ask for, of a project in `cwd`.
pub open spec fn is_bundle_config(
    config: BundleConfig,
    cwd: Seq<char>,
    entry_name: Seq<char>,
    opts: &BundleOptions,
    external: Seq<Seq<char>>,
) -> bool {
    &&& config.name@ == "bundle"@
    &&& config.import@ == entry_name
    &&& config.cwd@ == cwd
    &&& config.external is Some <==> external.len() > 0
    &&& config.external matches Some(list) ==> texts(list@) == external
    &&& config.file@ == "bundle.js"@
    &&& config.format == format_of(opts.format@)
    &&& config.hidden_sourcemap == opts.sourcemap
    &&& optional_text(config.banner) == optional_text(opts.banner)
    &&& optional_text(config.footer) == optional_text(opts.footer)
    &&& config.define is Some <==> opts.define@.len() > 0
    &&& config.define matches Some(pairs) ==> pair_texts(pairs@) == pair_texts(opts.define@)
    &&& is_resolve_config(config.resolve)
    &&& is_transform_config(config.transform, opts)
    &&& !config.treeshake
    &&& config.minify == (if opts.minify {
        Some(minify_choice(opts.drop_console))
    } else {
        None
    })
}

fn copy_optional(text: &Option<String>) -> (r: Option<String>)
    ensures
        optional_text(r) == optional_text(*text),
{
    match text {
        Some(text) => Some(text.clone()),
        None => None,
    }
}

fn copy_texts(list: &Vec<String>) -> (r: Vec<String>)
    ensures
        texts(r@) == texts(list@),
{
    let mut r: Vec<String> = Vec::new();
    for i in 0..list.len()
        invariant
            texts(r@) == texts(list@).take(i as int),
        decreases list.len() - i,
    {
        let ghost before = r@;
        r.push(list[i].clone());
        assert(texts(r@) == texts(before).push(list@[i as int]@));
    }
    assert(texts(list@).take(list@.len() as int) == texts(list@));
    r
}

fn copy_pairs(pairs: &Vec<(String, String)>) -> (r: Vec<(String, String)>)
    ensures
        pair_texts(r@) == pair_texts(pairs@),
{
    let mut r: Vec<(String, String)> = Vec::new();
    for i in 0..pairs.len()
        invariant
            pair_texts(r@) == pair_texts(pairs@).take(i as int),
        decreases pairs.len() - i,
    {
        let ghost before = r@;
        r.push((pairs[i].0.clone(), pairs[i].1.clone()));
        assert(pair_texts(r@) == pair_texts(before).push(pair_texts(pairs@)[i as int]));
    }
    assert(pair_texts(pairs@).take(pairs@.len() as int) == pair_texts(pairs@));
    r
}

/// What the bundler is told about a project in `cwd`.
pub fn build_bundle_options(
    cwd: &str,
    entry_name: &str,
    opts: &BundleOptions,
    external_specifiers: &Vec<String>,
) -> (r: BundleConfig)
    ensures
        is_bundle_config(r, cwd@, entry_name@, opts, texts(external_specifiers@)),
{
    BundleConfig {
        name: "bundle".to_owned(),
        import: entry_name.to_owned(),
        cwd: cwd.to_owned(),
        external: if external_specifiers.len() == 0 {
            None
        } else {
            Some(copy_texts(external_specifiers))
        },
        file: "bundle.js".to_owned(),
        format: output_format(opts.format.as_str()),
        hidden_sourcemap: opts.sourcemap,
        banner: copy_optional(&opts.banner),
        footer: copy_optional(&opts.footer),
        define: if opts.define.len() == 0 {
            None
        } else {
            Some(copy_pairs(&opts.define))
        },
        resolve: build_rolldown_resolve_options(),
        transform: build_rolldown_transform_options(opts),
        treeshake: false,
        minify: if opts.minify {
            Some(build_minify_options(opts.drop_console))
        } else {
            None
        },
    }
}

/// The bundler gets the defined names in ascending order, each once.
pub proof fn law_defines_stay_in_order(
    config: BundleConfig,
    cwd: Seq<char>,
    entry_name: Seq<char>,
    opts: &BundleOptions,
    external: Seq<Seq<char>>,
)
    requires
        opts.wf(),
        is_bundle_config(config, cwd, entry_name, opts, external),
    ensures
        config.define matches Some(pairs) ==> ascending(keys(pair_texts(pairs@))),
{
}

/// The characters of pairs are all of theirs, pair by pair.
pub proof fn law_pairs_are_whole(pairs: Seq<(String, String)>)
    ensures
        pair_texts(pairs).len() == pairs.len(),
        keys(pair_texts(pairs)).len() == pairs.len(),
        forall|i: int|
            0 <= i < pairs.len() ==> {
                &&& (#[trigger] pair_texts(pairs)[i]).0 == pairs[i].0@
                &&& pair_texts(pairs)[i].1 == pairs[i].1@
                &&& keys(pair_texts(pairs))[i] == pairs[i].0@
            },
{
}

/// Whether two optional strings are both missing, or hold the same characters.
pub open spec fn agree(a: Option<String>, b: Option<String>) -> bool {
    match (a, b) {
        (Some(x), Some(y)) => x@ == y@,
        (None, None) => true,
        _ => false,
    }
}

/// Whether an optional string holds a text, or is missing where the text is empty.
pub open spec fn agrees_with(a: Option<String>, text: Seq<char>) -> bool {
    match a {
        Some(x) => text.len() > 0 && x@ == text,
        None => text.len() == 0,
    }
}

/// The bundler is told all that the options ask for, word by word: what is asked for is there, what
/// is not asked for is left out, and nothing else is.
pub proof fn law_config_says_what_is_asked_for(
    config: BundleConfig,
    cwd: Seq<char>,
    entry_name: Seq<char>,
    opts: &BundleOptions,
    external: Seq<Seq<char>>,
)
    requires
        is_bundle_config(config, cwd, entry_name, opts, external),
    ensures
        config.name@ == "bundle"@,
        config.file@ == "bundle.js"@,
        config.import@ == entry_name,
        config.cwd@ == cwd,
        config.hidden_sourcemap <==> opts.sourcemap,
        !config.treeshake,
        agree(config.banner, opts.banner),
        agree(config.footer, opts.footer),
        match config.external {
            Some(list) => external.len() > 0 && hold_texts(list@, external),
            None => external.len() == 0,
        },
        match config.define {
            Some(pairs) => {
                &&& opts.define@.len() > 0
                &&& pairs@.len() == opts.define@.len()
                &&& forall|i: int|
                    0 <= i < pairs@.len() ==> (#[trigger] pairs@[i]).0@ == opts.define@[i].0@
                        && pairs@[i].1@ == opts.define@[i].1@
            },
            None => opts.define@.len() == 0,
        },
        config.format == OutputFormat::Esm <==> opts.format@ == "esm"@,
        config.format == OutputFormat::Cjs <==> opts.format@ == "cjs"@,
        agrees_with(config.transform.target, opts.target@),
        match config.transform.jsx {
            Some(jsx) => {
                &&& jsx.runtime@ == opts.jsx_runtime@
                &&& agrees_with(jsx.import_source, opts.import_source@)
                &&& agrees_with(jsx.pragma, opts.jsx_factory@)
                &&& agrees_with(jsx.pragma_frag, opts.jsx_fragment@)
            },
            None => {
                &&& opts.jsx_runtime@ == "automatic"@
                &&& opts.jsx_factory@.len() == 0
                &&& opts.jsx_fragment@.len() == 0
                &&& opts.import_source@.len() == 0
            },
        },
        config.transform.jsx is Some ==> opts.jsx_runtime@ != "automatic"@
            || opts.jsx_factory@.len() > 0 || opts.jsx_fragment@.len() > 0
            || opts.import_source@.len() > 0,
        match config.minify {
            None => !opts.minify,
            Some(MinifyConfig::Standard) => opts.minify && !opts.drop_console,
            Some(
                MinifyConfig::Detailed {
                    drop_console,
                    mangle_top_level,
                    mangle_keep_names,
                    mangle_debug,
                    default_target,
                    remove_whitespace,
                },
            ) => {
                &&& opts.minify && opts.drop_console
                &&& drop_console && default_target && remove_whitespace
                &&& !mangle_top_level && !mangle_keep_names && !mangle_debug
            },
        },
        hold_texts(
            config.resolve.extensions@,
            seq![".tsx"@, ".ts"@, ".jsx"@, ".js"@, ".json"@],
        ),
        config.resolve.extension_alias@.len() == 2,
        config.resolve.extension_alias@[0].0@ == ".js"@,
        hold_texts(
            config.resolve.extension_alias@[0].1@,
            seq![".ts"@, ".tsx"@, ".js"@, ".jsx"@],
        ),
        config.resolve.extension_alias@[1].0@ == ".jsx"@,
        hold_texts(
            config.resolve.extension_alias@[1].1@,
            seq![".tsx"@, ".ts"@, ".jsx"@, ".js"@],
        ),
{
    reveal_strlit("esm");
    reveal_strlit("cjs");
    assert("esm"@[0] != "cjs"@[0]);
    let aliases = alias_texts(config.resolve.extension_alias@);
    assert(aliases.len() == 2);
    assert(aliases[0] == (".js"@, seq![".ts"@, ".tsx"@, ".js"@, ".jsx"@]));
    assert(aliases[1] == (".jsx"@, seq![".tsx"@, ".ts"@, ".jsx"@, ".js"@]));
    if let Some(pairs) = config.define {
        assert(pair_texts(pairs@).len() == pair_texts(opts.define@).len());
        assert forall|i: int| 0 <= i < pairs@.len() implies (#[trigger] pairs@[i]).0@
            == opts.define@[i].0@ && pairs@[i].1@ == opts.define@[i].1@ by {
            assert(pair_texts(pairs@)[i] == pair_texts(opts.define@)[i]);
        }
    }
}

} // verus!
