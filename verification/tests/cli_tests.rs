//! The settings of the program.

use kg_extract::backend::ToolInvocation;
use kg_extract::chunking::{parse_prechunked, ChunkStrategy};
use kg_extract::cli::{
    configure, describe_value, dry_run_text, dry_run_value, expand_tilde, is_inline_config,
    raw_round_to_invocations, resolve, route, source_document, tool_rounds, Args, Backend,
    Engine, FileConfig, Flag, InputFormat, OutFmt, ScriptedCall,
};
use kg_extract::json::{parse_json, Json};
use kg_extract::types::{CorefMode, Schema, SchemaMode};

fn said<T>(value: T) -> Flag<T> {
    Flag { value, given: true }
}

#[test]
fn precedence_cli_over_config_over_default() {
    let mut args = Args::unsaid();
    args.engine = said(Engine::Simple);
    let mut cfg = FileConfig::empty();
    cfg.engine = Some(Engine::SchemaJson);
    let r = resolve(args, cfg);
    assert!(matches!(r.engine, Engine::Simple));

    let mut cfg = FileConfig::empty();
    cfg.engine = Some(Engine::SchemaJson);
    cfg.chunker = Some(ChunkStrategy::Token);
    cfg.max_rounds = Some(4);
    cfg.schema_mode = Some(SchemaMode::Evolving);
    let r = resolve(Args::unsaid(), cfg);
    assert!(matches!(r.engine, Engine::SchemaJson));
    assert!(matches!(r.chunker, ChunkStrategy::Token));
    assert_eq!(r.max_rounds, 4);
    assert!(matches!(r.schema_mode, SchemaMode::Evolving));

    let r = resolve(Args::unsaid(), FileConfig::empty());
    assert!(matches!(r.engine, Engine::Simple));
    assert!(matches!(r.chunker, ChunkStrategy::Recursive));
    assert_eq!(r.max_rounds, 1);
    assert!(matches!(r.schema_mode, SchemaMode::Open));
    assert_eq!(r.agent, "minimaxcc");
}

#[test]
fn precedence_cli_flag_overrides_config() {
    let mut args = Args::unsaid();
    args.schema_mode = said(SchemaMode::Fixed);
    let mut cfg = FileConfig::empty();
    cfg.schema_mode = Some(SchemaMode::Evolving);
    let r = resolve(args, cfg);
    assert!(
        matches!(r.schema_mode, SchemaMode::Fixed),
        "explicit --schema-mode must win over config"
    );
}

#[test]
fn describe_value_reports_json_and_dry_run_support() {
    let value = describe_value();
    assert_eq!(value.text_at("name").as_deref(), Some("kg-extract"));
    let supports = value.get("supports").unwrap();
    assert_eq!(supports.get("describe"), Some(&Json::Bool(true)));
    assert!(supports.text_at("json").unwrap().contains("--json"));
    assert!(supports.text_at("dry_run").unwrap().contains("plan"));
}

#[test]
fn dry_run_value_reports_no_input_or_backend_side_effects() {
    let mut args = Args::unsaid();
    args.engine = said(Engine::SchemaJson);
    args.backend = said(Backend::Agent);
    args.agent = said("glmcc".to_string());
    args.output = said(OutFmt::Stats);
    let cfg = resolve(args, FileConfig::empty());
    let file = Some("doc.md".to_string());
    let value = dry_run_value(&file, InputFormat::Text, &cfg, false);
    assert_eq!(value.get("dry_run"), Some(&Json::Bool(true)));
    assert_eq!(value.get("will_read_input"), Some(&Json::Bool(false)));
    assert_eq!(value.get("will_call_backend"), Some(&Json::Bool(false)));
    assert_eq!(value.get("input").unwrap().text_at("source").as_deref(), Some("doc.md"));
    let config = value.get("config").unwrap();
    assert_eq!(config.text_at("engine").as_deref(), Some("schema-json"));
    assert_eq!(config.text_at("backend").as_deref(), Some("agent"));
    assert_eq!(config.text_at("agent").as_deref(), Some("glmcc"));
    assert_eq!(config.text_at("output").as_deref(), Some("stats"));

    let said = dry_run_text(&file, InputFormat::Chunks, &cfg);
    assert!(said.contains("input: doc.md") && said.contains("input_format: chunks"));
    assert!(dry_run_text(&None, InputFormat::Text, &cfg).contains("input: stdin"));
}

#[test]
fn expand_tilde_expands_home() {
    assert_eq!(expand_tilde("~/foo/bar.json", Some("/home/me")), "/home/me/foo/bar.json");
    assert_eq!(expand_tilde("~/foo", Some("/home/me/")), "/home/me/foo");
    assert_eq!(expand_tilde("/abs/path.json", Some("/home/me")), "/abs/path.json");
    assert_eq!(expand_tilde("rel/path.json", Some("/home/me")), "rel/path.json");
    assert_eq!(expand_tilde("~/foo", None), "~/foo");
}

fn rounds(text: &str) -> Result<Vec<Vec<ToolInvocation>>, String> {
    tool_rounds(&parse_json(text).unwrap())
}

#[test]
fn parse_mock_tool_rounds_accepts_inline_single_round() {
    let rounds =
        rounds(r#"[{"name":"add_entity","arguments":{"name":"AtlasDB","type":"PRODUCT"}}]"#)
            .unwrap();
    assert_eq!(rounds.len(), 1);
    assert_eq!(rounds[0].len(), 1);
    assert_eq!(rounds[0][0].name, "add_entity");
    assert_eq!(rounds[0][0].arguments.text_at("name").as_deref(), Some("AtlasDB"));
    assert_eq!(rounds[0][0].id, "mock_0_0");
}

#[test]
fn parse_mock_tool_rounds_accepts_file_multi_round() {
    let rounds = rounds(
        r#"[
          [{"id":"e1","name":"add_entity","args":{"name":"A","type":"PRODUCT"}}],
          [{"name":"finish","arguments":{}}]
        ]"#,
    )
    .unwrap();
    assert_eq!(rounds.len(), 2);
    assert_eq!(rounds[0][0].id, "e1");
    assert_eq!(rounds[0][0].arguments.text_at("name").as_deref(), Some("A"));
    assert_eq!(rounds[1][0].name, "finish");
}

#[test]
fn what_gives_no_call_is_refused() {
    assert_eq!(rounds("[]").unwrap()[0].len(), 0);
    let listed = rounds(r#"[[[null, "finish"], ["x", "add_entity", {"name":"A"}]]]"#).unwrap();
    assert_eq!(listed[0][0].id, "mock_0_0");
    assert_eq!(listed[0][0].arguments, Json::Null);
    assert_eq!(listed[0][1].arguments.text_at("name").as_deref(), Some("A"));
    let refused = |t: &str| rounds(t).err().unwrap();
    assert_eq!(refused("3"), "--mock-tool-calls: round 0 is not a list of tool calls");
    assert_eq!(refused("[[], 3]"), "--mock-tool-calls: round 1 is not a list of tool calls");
    let no_call = "--mock-tool-calls: round 0, call 0 is not a tool call";
    assert_eq!(refused(r#"[{"id":"x"}]"#), no_call);
    assert_eq!(refused(r#"[{"name":"x","id":1}]"#), no_call);
    assert_eq!(refused(r#"[{"name":"x","args":{},"arguments":{}}]"#), no_call);
    assert_eq!(refused(r#"[[["x"]]]"#), no_call);
    let named =
        vec![ScriptedCall { id: Some("e1".into()), name: "finish".into(), arguments: Json::Null }];
    assert_eq!(raw_round_to_invocations(7, &named)[0].id, "e1");
}

#[test]
fn legacy_describe_points_at_provider_protocol() {
    let value = describe_value();
    let supports = value.get("supports").unwrap();
    assert!(supports.text_at("provider_protocol").unwrap().contains("kg.provider/v1"));
}

#[test]
fn switches_hold_from_the_command_line_or_the_file() {
    let r = resolve(Args::unsaid(), FileConfig::empty());
    assert!(!r.community_summaries && !r.canonical_direction && !r.coref);

    let mut cfg = FileConfig::empty();
    cfg.community_summaries = Some(true);
    cfg.canonical_direction = Some(true);
    cfg.coref = Some(false);
    let r = resolve(Args::unsaid(), cfg);
    assert!(r.community_summaries, "config file enables the flag");
    assert!(r.canonical_direction, "config file enables the flag");
    assert!(!r.coref);

    let mut args = Args::unsaid();
    args.community_summaries = true;
    args.canonical_direction = true;
    args.coref = true;
    let r = resolve(args, FileConfig::empty());
    assert!(r.community_summaries && r.canonical_direction && r.coref);
}

#[test]
fn settings_can_be_written_out_on_the_spot() {
    assert!(is_inline_config("   {\"output\": \"stats\"}"));
    assert!(!is_inline_config("config.json"));
    assert!(!is_inline_config("  "));
}

#[test]
fn a_template_takes_the_engine_that_follows_it() {
    assert_eq!(route(Engine::Simple, true), (Engine::SchemaJson, true));
    assert_eq!(route(Engine::SchemaJson, true), (Engine::SchemaJson, false));
    assert_eq!(route(Engine::Toolcall, false), (Engine::Toolcall, false));
}

#[test]
fn the_document_is_named_by_its_chunks_or_its_file() {
    let chunks = parse_prechunked(r#"{"text":"A","source_file":"doc.md"}"#).unwrap();
    let file = Some("in.jsonl".to_string());
    assert_eq!(source_document(&Some(chunks), &file).as_deref(), Some("doc.md"));
    assert_eq!(source_document(&None, &file).as_deref(), Some("in.jsonl"));
    assert_eq!(source_document(&None, &Some("-".to_string())), None);
    assert_eq!(source_document(&None, &None), None);
}

#[test]
fn each_engine_heeds_its_settings() {
    let with = |engine: Engine| {
        let mut args = Args::unsaid();
        args.engine = said(engine);
        args.model = said(Some("m".to_string()));
        args.coref = true;
        args.lang = said(Some("en".to_string()));
        args.max_concurrency = said(3);
        resolve(args, FileConfig::empty())
    };
    let schema = || Some(Schema::new(vec!["A".into()], vec![], vec![]));

    let c = configure(&with(Engine::Simple), Some("d".into()), schema(), false);
    assert_eq!((c.model_name.as_str(), c.max_concurrency), ("m", 3));
    assert_eq!(c.source_doc.as_deref(), Some("d"));
    assert!(c.spec.coref == CorefMode::Fuzzy);
    assert!(c.spec.schema.is_empty());

    let c = configure(&with(Engine::SchemaJson), None, schema(), true);
    assert_eq!(c.segment_size, 3000);
    assert_eq!(c.spec.language.as_deref(), Some("en"));
    assert!(c.spec.coref == CorefMode::Fuzzy);
    assert!(!c.spec.schema.is_empty());

    let c = configure(&with(Engine::Toolcall), None, schema(), false);
    assert_eq!(c.segment_size, 5000);
    assert_eq!(c.spec.language, None);
    assert!(!c.spec.schema.is_empty());

    let c = configure(&with(Engine::Agentic), None, schema(), false);
    assert!(c.spec.coref == CorefMode::Off);
    assert!(!c.spec.schema.is_empty());
}
