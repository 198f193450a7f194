use oxc_ex_nif::config::{
    build_bundle_options, build_minify_options, build_rolldown_resolve_options,
    build_rolldown_transform_options, output_format, BundleConfig, BundleOptions, MinifyConfig,
    OutputFormat,
};

fn automatic() -> BundleOptions {
    BundleOptions { jsx_runtime: "automatic".to_string(), ..BundleOptions::default() }
}

fn config(opts: &BundleOptions, external: &[&str]) -> BundleConfig {
    let external: Vec<String> = external.iter().map(|name| name.to_string()).collect();
    build_bundle_options("/tmp/p", "src/app.ts", opts, &external)
}

#[test]
fn default_options_are_empty() {
    let opts = BundleOptions::default();
    assert_eq!(opts.entry, "");
    assert_eq!(opts.format, "");
    assert_eq!(opts.jsx_runtime, "");
    assert_eq!(opts.jsx_factory, "");
    assert_eq!(opts.jsx_fragment, "");
    assert_eq!(opts.import_source, "");
    assert_eq!(opts.target, "");
    assert!(opts.banner.is_none() && opts.footer.is_none() && opts.preamble.is_none());
    assert!(opts.define.is_empty());
    assert!(!opts.minify && !opts.sourcemap && !opts.drop_console);
}

#[test]
fn formats_are_told_apart() {
    assert_eq!(output_format("esm"), OutputFormat::Esm);
    assert_eq!(output_format("cjs"), OutputFormat::Cjs);
    assert_eq!(output_format("iife"), OutputFormat::Iife);
    assert_eq!(output_format(""), OutputFormat::Iife);
    assert_eq!(output_format("umd"), OutputFormat::Iife);
}

#[test]
fn typescript_is_tried_first() {
    let resolve = build_rolldown_resolve_options();
    assert_eq!(resolve.extensions, [".tsx", ".ts", ".jsx", ".js", ".json"]);
    assert_eq!(resolve.extension_alias.len(), 2);
    assert_eq!(resolve.extension_alias[0].0, ".js");
    assert_eq!(resolve.extension_alias[0].1, [".ts", ".tsx", ".js", ".jsx"]);
    assert_eq!(resolve.extension_alias[1].0, ".jsx");
    assert_eq!(resolve.extension_alias[1].1, [".tsx", ".ts", ".jsx", ".js"]);
}

#[test]
fn automatic_runtime_alone_asks_for_nothing() {
    let transform = build_rolldown_transform_options(&automatic());
    assert!(transform.jsx.is_none());
    assert!(transform.target.is_none());
}

#[test]
fn any_other_runtime_is_passed_on() {
    let jsx = build_rolldown_transform_options(&BundleOptions::default()).jsx.unwrap();
    assert_eq!(jsx.runtime, "");
    let opts = BundleOptions { jsx_runtime: "classic".to_string(), ..BundleOptions::default() };
    let jsx = build_rolldown_transform_options(&opts).jsx.unwrap();
    assert_eq!(jsx.runtime, "classic");
    assert!(jsx.import_source.is_none() && jsx.pragma.is_none() && jsx.pragma_frag.is_none());
}

#[test]
fn any_jsx_text_is_passed_on() {
    let factory = BundleOptions { jsx_factory: "h".to_string(), ..automatic() };
    let jsx = build_rolldown_transform_options(&factory).jsx.unwrap();
    assert_eq!((jsx.runtime.as_str(), jsx.pragma.as_deref()), ("automatic", Some("h")));
    let fragment = BundleOptions { jsx_fragment: "F".to_string(), ..automatic() };
    let jsx = build_rolldown_transform_options(&fragment).jsx.unwrap();
    assert_eq!(jsx.pragma_frag.as_deref(), Some("F"));
    let source = BundleOptions { import_source: "preact".to_string(), ..automatic() };
    let jsx = build_rolldown_transform_options(&source).jsx.unwrap();
    assert_eq!(jsx.import_source.as_deref(), Some("preact"));
}

#[test]
fn target_is_passed_on() {
    let opts = BundleOptions { target: "es2019".to_string(), ..automatic() };
    assert_eq!(build_rolldown_transform_options(&opts).target.as_deref(), Some("es2019"));
}

#[test]
fn minification_has_its_own_options_for_dropped_calls() {
    assert_eq!(build_minify_options(false), MinifyConfig::Standard);
    assert_eq!(
        build_minify_options(true),
        MinifyConfig::Detailed {
            drop_console: true,
            mangle_top_level: false,
            mangle_keep_names: false,
            mangle_debug: false,
            default_target: true,
            remove_whitespace: true,
        },
    );
}

#[test]
fn plain_bundle_is_configured() {
    let config = config(&automatic(), &[]);
    assert_eq!(config.name, "bundle");
    assert_eq!(config.import, "src/app.ts");
    assert_eq!(config.cwd, "/tmp/p");
    assert_eq!(config.file, "bundle.js");
    assert_eq!(config.format, OutputFormat::Iife);
    assert!(!config.hidden_sourcemap && !config.treeshake);
    assert!(config.external.is_none() && config.define.is_none() && config.minify.is_none());
    assert!(config.banner.is_none() && config.footer.is_none());
    assert_eq!(config.resolve.extensions.len(), 5);
    assert!(config.transform.jsx.is_none());
}

#[test]
fn full_bundle_is_configured() {
    let opts = BundleOptions {
        format: "esm".to_string(),
        minify: true,
        drop_console: true,
        sourcemap: true,
        banner: Some("/* b */".to_string()),
        footer: Some(String::new()),
        define: vec![("A".to_string(), "1".to_string()), ("B".to_string(), "2".to_string())],
        target: "es2019".to_string(),
        ..automatic()
    };
    let config = config(&opts, &["react", "vue"]);
    assert_eq!(config.format, OutputFormat::Esm);
    assert!(config.hidden_sourcemap);
    assert_eq!(config.external.as_deref(), Some(&["react".to_string(), "vue".to_string()][..]));
    assert_eq!(config.banner.as_deref(), Some("/* b */"));
    assert_eq!(config.footer.as_deref(), Some(""));
    assert_eq!(config.define, Some(opts.define));
    assert_eq!(config.minify, Some(build_minify_options(true)));
    assert_eq!(config.transform.target.as_deref(), Some("es2019"));
}

#[test]
fn dropping_calls_needs_minification() {
    let opts = BundleOptions { drop_console: true, ..automatic() };
    assert_eq!(config(&opts, &[]).minify, None);
    let opts = BundleOptions { minify: true, ..automatic() };
    assert_eq!(config(&opts, &[]).minify, Some(MinifyConfig::Standard));
}
