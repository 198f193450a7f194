//! What callers can ask for, and what it means for the toolchain.
use vstd::prelude::*;

use crate::text::{optional_text, same_text};
use crate::toolchain::{
    are_distinct_targets, is_edition, is_engine_target, is_known_target, lemma_edition_is_text,
    lemma_listed_is_text, listed, may_know, names_nothing,
};

verus! {

/// How source text is parsed.
#[derive(Debug, Clone, Copy, PartialEq, Eq, Structural)]
pub struct ParserOptions {
    /// Whether the patterns of regular expressions are parsed, and refused where they are invalid.
    pub parse_regular_expression: bool,
}

impl Default for ParserOptions {
    fn default() -> (r: Self)
        ensures
            !r.parse_regular_expression,
    {
        ParserOptions { parse_regular_expression: false }
    }
}

/// The options under which everything but a validity check parses: patterns are parsed too.
pub open spec fn full_parse() -> ParserOptions {
    ParserOptions { parse_regular_expression: true }
}

/// The options under which everything but a validity check parses.
pub fn parser_options() -> (r: ParserOptions)
    ensures
        r == full_parse(),
        r.parse_regular_expression,
{
    ParserOptions { parse_regular_expression: true }
}

/// The value of a boolean option that is on unless it is switched off.
pub fn default_true() -> (r: bool)
    ensures
        r == true,
{
    true
}

/// The JSX runtime that is used where none is asked for.
pub fn default_jsx_runtime() -> (r: String)
    ensures
        r@ == "automatic"@,
{
    "automatic".to_owned()
}

/// The module format that a bundle has where none is asked for.
pub fn default_format() -> (r: String)
    ensures
        r@ == "iife"@,
{
    "iife".to_owned()
}

/// The options of a transformation.
#[derive(Debug)]
pub struct TransformInput {
    pub jsx_runtime: String,
    pub jsx_factory: String,
    pub jsx_fragment: String,
    pub import_source: String,
    pub target: String,
    pub sourcemap: bool,
}

impl Default for TransformInput {
    fn default() -> (r: Self)
        ensures
            r.jsx_runtime@ == "automatic"@,
            r.jsx_factory@.len() == 0,
            r.jsx_fragment@.len() == 0,
            r.import_source@.len() == 0,
            r.target@.len() == 0,
            !r.sourcemap,
    {
        TransformInput {
            jsx_runtime: default_jsx_runtime(),
            jsx_factory: String::new(),
            jsx_fragment: String::new(),
            import_source: String::new(),
            target: String::new(),
            sourcemap: false,
        }
    }
}

/// The options of a minification.
#[derive(Debug, Clone, Copy)]
pub struct MinifyInput {
    /// Whether local names are shortened.
    pub mangle: bool,
}

impl Default for MinifyInput {
    fn default() -> (r: Self)
        ensures
            r.mangle,
    {
        MinifyInput { mangle: true }
    }
}

/// Where the functions come from that JSX is turned into calls of.
#[derive(Debug, Clone, Copy, PartialEq, Eq, Structural)]
pub enum JsxRuntime {
    /// They are in scope.
    Classic,
    /// They are imported.
    Automatic,
}

/// What the transformer is told.
#[derive(Debug)]
pub struct TransformSettings {
    pub runtime: JsxRuntime,
    /// The function that elements become calls of.
    pub pragma: Option<String>,
    /// The component that fragments become.
    pub pragma_frag: Option<String>,
    /// The module that the automatic runtime imports from.
    pub import_source: Option<String>,
    /// The engines that the output is for; one that the transformer knows.
    pub target: Option<String>,
}

/// The settings as characters.
pub struct TransformSettingsView {
    pub runtime: JsxRuntime,
    pub pragma: Option<Seq<char>>,
    pub pragma_frag: Option<Seq<char>>,
    pub import_source: Option<Seq<char>>,
    pub target: Option<Seq<char>>,
}

impl View for TransformSettings {
    type V = TransformSettingsView;

    open spec fn view(&self) -> TransformSettingsView {
        TransformSettingsView {
            runtime: self.runtime,
            pragma: optional_text(self.pragma),
            pragma_frag: optional_text(self.pragma_frag),
            import_source: optional_text(self.import_source),
            target: optional_text(self.target),
        }
    }
}

/// A text that was given: an empty one counts as missing.
pub open spec fn given(text: Seq<char>) -> Option<Seq<char>> {
    if text.len() == 0 {
        None
    } else {
        Some(text)
    }
}

/// Whether a setting holds a text, or is left out where the text is empty.
pub open spec fn is_given(setting: Option<String>, text: Seq<char>) -> bool {
    &&& setting is None <==> text.len() == 0
    &&& setting matches Some(held) ==> held@ == text
}

pub(crate) fn given_text(text: &str) -> (r: Option<String>)
    ensures
        optional_text(r) == given(text@),
        is_given(r, text@),
{
    if text.is_empty() {
        None
    } else {
        Some(text.to_owned())
    }
}

/// The settings that a caller's texts stand for, given whether the transformer knows the target.
/// Only the runtime `classic` is told from the automatic one, an empty text leaves its setting out,
/// and so does a target that is not known.
pub open spec fn transform_settings(
    jsx_runtime: Seq<char>,
    jsx_factory: Seq<char>,
    jsx_fragment: Seq<char>,
    import_source: Seq<char>,
    target: Seq<char>,
    target_is_known: bool,
) -> TransformSettingsView {
    TransformSettingsView {
        runtime: if jsx_runtime == "classic"@ {
            JsxRuntime::Classic
        } else {
            JsxRuntime::Automatic
        },
        pragma: given(jsx_factory),
        pragma_frag: given(jsx_fragment),
        import_source: given(import_source),
        target: if target_is_known {
            given(target)
        } else {
            None
        },
    }
}

/// Whether this is an answer that the transformer gives to whether it knows a target.
pub closed spec fn answers(target: Seq<char>, answer: bool) -> bool {
    exists|text: &str|
        text@ == target && #[trigger] call_ensures(is_known_target, (text,), answer)
}

/// Whether these are settings that a caller's texts stand for, for an answer that the transformer
/// gives to whether it knows the target. It is not asked where there is none.
pub open spec fn are_settings(
    settings: TransformSettingsView,
    jsx_runtime: Seq<char>,
    jsx_factory: Seq<char>,
    jsx_fragment: Seq<char>,
    import_source: Seq<char>,
    target: Seq<char>,
) -> bool {
    exists|target_is_known: bool|
        {
            &&& target.len() > 0 ==> answers(target, target_is_known)
            &&& settings == #[trigger] transform_settings(
                jsx_runtime,
                jsx_factory,
                jsx_fragment,
                import_source,
                target,
                target_is_known,
            )
        }
}

/// The settings that a caller's texts stand for. Whether they hold the target rests on whether the
/// transformer knows it: see [`select_transform_options`] for either answer.
pub fn build_transform_options(
    jsx_runtime: &str,
    jsx_factory: &str,
    jsx_fragment: &str,
    import_source: &str,
    target: &str,
) -> (r: TransformSettings)
    ensures
        are_settings(
            r@,
            jsx_runtime@,
            jsx_factory@,
            jsx_fragment@,
            import_source@,
            target@,
        ),
        r.runtime == JsxRuntime::Classic <==> jsx_runtime@ == "classic"@,
        is_given(r.pragma, jsx_factory@),
        is_given(r.pragma_frag, jsx_fragment@),
        is_given(r.import_source, import_source@),
        r.target matches Some(kept) ==> kept@ == target@ && answers(target@, true),
        r.target is None ==> target@.len() == 0 || answers(target@, false),
{
    let known = !target.is_empty() && is_known_target(target);
    assert(target@.len() > 0 ==> answers(target@, known));
    select_transform_options(jsx_runtime, jsx_factory, jsx_fragment, import_source, target, known)
}

/// The settings that a caller's texts stand for, once it is known whether the transformer knows
/// the target.
pub fn select_transform_options(
    jsx_runtime: &str,
    jsx_factory: &str,
    jsx_fragment: &str,
    import_source: &str,
    target: &str,
    target_is_known: bool,
) -> (r: TransformSettings)
    ensures
        r@ == transform_settings(
            jsx_runtime@,
            jsx_factory@,
            jsx_fragment@,
            import_source@,
            target@,
            target_is_known,
        ),
        r.runtime == JsxRuntime::Classic <==> jsx_runtime@ == "classic"@,
        is_given(r.pragma, jsx_factory@),
        is_given(r.pragma_frag, jsx_fragment@),
        is_given(r.import_source, import_source@),
        target_is_known ==> is_given(r.target, target@),
        !target_is_known ==> r.target is None,
{
    TransformSettings {
        runtime: if same_text(jsx_runtime, "classic") {
            JsxRuntime::Classic
        } else {
            JsxRuntime::Automatic
        },
        pragma: given_text(jsx_factory),
        pragma_frag: given_text(jsx_fragment),
        import_source: given_text(import_source),
        target: if target_is_known {
            given_text(target)
        } else {
            None
        },
    }
}

/// A target that the transformer does not know has the same effect as none.
pub proof fn law_unknown_target_is_ignored(
    jsx_runtime: Seq<char>,
    jsx_factory: Seq<char>,
    jsx_fragment: Seq<char>,
    import_source: Seq<char>,
    target: Seq<char>,
    settings: TransformSettingsView,
)
    requires
        are_settings(
            settings,
            jsx_runtime,
            jsx_factory,
            jsx_fragment,
            import_source,
            Seq::empty(),
        ),
    ensures
        settings == transform_settings(
            jsx_runtime,
            jsx_factory,
            jsx_fragment,
            import_source,
            target,
            false,
        ),
{
}

/// The transformer knows lists of editions and of engines with a version, and nothing that starts
/// as neither does.
pub proof fn law_answers_are_possible(target: Seq<char>, answer: bool)
    requires
        answers(target, answer),
    ensures
        names_nothing(target) ==> !answer,
        is_edition(target) ==> answer,
        forall|targets: Seq<Seq<char>>| #[trigger]
            are_distinct_targets(targets) && target == listed(targets) ==> answer,
{
    let text = choose|text: &str|
        text@ == target && #[trigger] call_ensures(is_known_target, (text,), answer);
    assert(may_know(text@, answer));
}

/// An answer is what a call of [`is_known_target`] returns for the target.
pub(crate) proof fn law_answers_come_from_the_transformer(target: Seq<char>, answer: bool)
    requires
        answers(target, answer),
    ensures
        exists|text: &str|
            text@ == target && #[trigger] call_ensures(is_known_target, (text,), answer),
{
}

/// The settings say what the texts say: the runtime is the classic one where that is asked for by
/// name, and each other setting holds its text, or is left out where that is empty. The target is
/// held exactly where the transformer answers that it knows it.
pub proof fn law_settings_hold_the_texts(
    settings: TransformSettingsView,
    jsx_runtime: Seq<char>,
    jsx_factory: Seq<char>,
    jsx_fragment: Seq<char>,
    import_source: Seq<char>,
    target: Seq<char>,
)
    requires
        are_settings(
            settings,
            jsx_runtime,
            jsx_factory,
            jsx_fragment,
            import_source,
            target,
        ),
    ensures
        settings.runtime == JsxRuntime::Classic <==> jsx_runtime == "classic"@,
        settings.pragma is None <==> jsx_factory.len() == 0,
        settings.pragma matches Some(text) ==> text == jsx_factory,
        settings.pragma_frag is None <==> jsx_fragment.len() == 0,
        settings.pragma_frag matches Some(text) ==> text == jsx_fragment,
        settings.import_source is None <==> import_source.len() == 0,
        settings.import_source matches Some(text) ==> text == import_source,
        settings.target is None ==> target.len() == 0 || answers(target, false),
        settings.target matches Some(text) ==> text == target && target.len() > 0 && answers(
            target,
            true,
        ),
{
}

/// A list of editions and of engines with a version, in which none is there twice, is kept as the
/// target.
pub proof fn law_known_targets_are_kept(
    settings: TransformSettingsView,
    jsx_runtime: Seq<char>,
    jsx_factory: Seq<char>,
    jsx_fragment: Seq<char>,
    import_source: Seq<char>,
    targets: Seq<Seq<char>>,
)
    requires
        are_distinct_targets(targets),
        are_settings(
            settings,
            jsx_runtime,
            jsx_factory,
            jsx_fragment,
            import_source,
            listed(targets),
        ),
    ensures
        settings.target == Some(listed(targets)),
{
    lemma_listed_is_text(targets);
    law_settings_hold_the_texts(
        settings,
        jsx_runtime,
        jsx_factory,
        jsx_fragment,
        import_source,
        listed(targets),
    );
    if settings.target is None {
        law_answers_are_possible(listed(targets), false);
    }
}

/// An engine with a version, such as `chrome58`, is kept as the target.
pub proof fn law_engines_are_kept(
    settings: TransformSettingsView,
    jsx_runtime: Seq<char>,
    jsx_factory: Seq<char>,
    jsx_fragment: Seq<char>,
    import_source: Seq<char>,
    target: Seq<char>,
    name: Seq<char>,
)
    requires
        is_engine_target(target, name),
        are_settings(
            settings,
            jsx_runtime,
            jsx_factory,
            jsx_fragment,
            import_source,
            target,
        ),
    ensures
        settings.target == Some(target),
{
    let targets = seq![target];
    assert(is_engine_target(targets[0], name));
    assert(listed(targets) == target);
    law_known_targets_are_kept(
        settings,
        jsx_runtime,
        jsx_factory,
        jsx_fragment,
        import_source,
        targets,
    );
}

/// An edition of ECMAScript is kept as the target, and a target that names nothing is left out,
/// whatever else the transformer knows.
pub proof fn law_editions_are_kept(
    jsx_runtime: Seq<char>,
    jsx_factory: Seq<char>,
    jsx_fragment: Seq<char>,
    import_source: Seq<char>,
    target: Seq<char>,
    settings: TransformSettingsView,
)
    requires
        are_settings(
            settings,
            jsx_runtime,
            jsx_factory,
            jsx_fragment,
            import_source,
            target,
        ),
    ensures
        names_nothing(target) ==> settings.target is None,
        is_edition(target) ==> settings.target == Some(target),
{
    if is_edition(target) {
        lemma_edition_is_text(target);
    }
    law_settings_hold_the_texts(
        settings,
        jsx_runtime,
        jsx_factory,
        jsx_fragment,
        import_source,
        target,
    );
    if settings.target is None && target.len() > 0 {
        law_answers_are_possible(target, false);
    }
    if settings.target is Some {
        law_answers_are_possible(target, true);
    }
}

} // verus!
