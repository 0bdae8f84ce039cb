//! The settings of the program: what is said on the command line goes before what a
//! file says, and that before what is used where nothing is said.

use vstd::prelude::*;

use crate::backend::{mock, InvocationV, ToolInvocation};
use crate::chunking::{ChunkStrategy, PreChunked, PreChunkedV};
use crate::extractor::{
    AgenticExtractor, SchemaJsonExtractor, SimpleExtractor, ToolCallExtractor,
};
use crate::json::{Json, JsonV, ObjectBuilder};
use crate::table::Dup;
use crate::types::graph::dup_option;
use crate::types::spec::{
    ConfigV, CorefMode, ExtractionConfig, MergeStrategy, Schema, SchemaMode, SchemaV, SpecV,
};
use crate::{json, seqs, table, text};

verus! {

broadcast use {crate::seqs::group_views, crate::json::group_json};

/// What does the extraction.
#[derive(Clone, Copy, Debug, PartialEq, Eq, Structural)]
pub enum Engine {
    Simple,
    SchemaJson,
    Toolcall,
    Agentic,
}

/// What answers the questions.
#[derive(Clone, Copy, Debug, PartialEq, Eq, Structural)]
pub enum Backend {
    Llms,
    Agent,
    Mock,
}

/// What the input is.
#[derive(Clone, Copy, Debug, PartialEq, Eq, Structural)]
pub enum InputFormat {
    Text,
    Chunks,
}

/// How the outcome is written.
#[derive(Clone, Copy, Debug, PartialEq, Eq, Structural)]
pub enum OutFmt {
    Json,
    Jsonl,
    KgProtocol,
    NodeLink,
    LadybugImport,
    Mermaid,
    Stats,
    Communities,
    CommunitiesHierarchy,
}

/// The name of an engine.
pub open spec fn name_of_engine(v: Engine) -> Seq<char> {
    match v {
        Engine::Simple => "simple"@,
        Engine::SchemaJson => "schema-json"@,
        Engine::Toolcall => "toolcall"@,
        Engine::Agentic => "agentic"@,
    }
}

/// The name of an engine.
pub fn engine_name(v: Engine) -> (r: &'static str)
    ensures
        r@ == name_of_engine(v),
{
    match v {
        Engine::Simple => "simple",
        Engine::SchemaJson => "schema-json",
        Engine::Toolcall => "toolcall",
        Engine::Agentic => "agentic",
    }
}

/// The name of a backend.
pub open spec fn name_of_backend(v: Backend) -> Seq<char> {
    match v {
        Backend::Llms => "llms"@,
        Backend::Agent => "agent"@,
        Backend::Mock => "mock"@,
    }
}

/// The name of a backend.
pub fn backend_name(v: Backend) -> (r: &'static str)
    ensures
        r@ == name_of_backend(v),
{
    match v {
        Backend::Llms => "llms",
        Backend::Agent => "agent",
        Backend::Mock => "mock",
    }
}

/// The name of a way to cut a text.
pub open spec fn name_of_chunker(v: ChunkStrategy) -> Seq<char> {
    match v {
        ChunkStrategy::Char => "char"@,
        ChunkStrategy::Recursive => "recursive"@,
        ChunkStrategy::Token => "token"@,
    }
}

/// The name of a way to cut a text.
pub fn chunker_name(v: ChunkStrategy) -> (r: &'static str)
    ensures
        r@ == name_of_chunker(v),
{
    match v {
        ChunkStrategy::Char => "char",
        ChunkStrategy::Recursive => "recursive",
        ChunkStrategy::Token => "token",
    }
}

/// The name of a kind of input.
pub open spec fn name_of_input(v: InputFormat) -> Seq<char> {
    match v {
        InputFormat::Text => "text"@,
        InputFormat::Chunks => "chunks"@,
    }
}

/// The name of a kind of input.
pub fn input_format_name(v: InputFormat) -> (r: &'static str)
    ensures
        r@ == name_of_input(v),
{
    match v {
        InputFormat::Text => "text",
        InputFormat::Chunks => "chunks",
    }
}

/// The name of a way to merge.
pub open spec fn name_of_strategy(v: MergeStrategy) -> Seq<char> {
    match v {
        MergeStrategy::KeepExisting => "keep-existing"@,
        MergeStrategy::KeepIncoming => "keep-incoming"@,
        MergeStrategy::FieldUnion => "field-union"@,
        MergeStrategy::Llm => "llm"@,
    }
}

/// The name of a way to merge.
pub fn merge_strategy_name(v: MergeStrategy) -> (r: &'static str)
    ensures
        r@ == name_of_strategy(v),
{
    match v {
        MergeStrategy::KeepExisting => "keep-existing",
        MergeStrategy::KeepIncoming => "keep-incoming",
        MergeStrategy::FieldUnion => "field-union",
        MergeStrategy::Llm => "llm",
    }
}

/// The name of a way to write the outcome.
pub open spec fn name_of_output(v: OutFmt) -> Seq<char> {
    match v {
        OutFmt::Json => "json"@,
        OutFmt::Jsonl => "jsonl"@,
        OutFmt::KgProtocol => "kg-protocol"@,
        OutFmt::NodeLink => "node-link"@,
        OutFmt::LadybugImport => "ladybug-import"@,
        OutFmt::Mermaid => "mermaid"@,
        OutFmt::Stats => "stats"@,
        OutFmt::Communities => "communities"@,
        OutFmt::CommunitiesHierarchy => "communities-hierarchy"@,
    }
}

/// The name of a way to write the outcome.
pub fn output_name(v: OutFmt) -> (r: &'static str)
    ensures
        r@ == name_of_output(v),
{
    match v {
        OutFmt::Json => "json",
        OutFmt::Jsonl => "jsonl",
        OutFmt::KgProtocol => "kg-protocol",
        OutFmt::NodeLink => "node-link",
        OutFmt::LadybugImport => "ladybug-import",
        OutFmt::Mermaid => "mermaid",
        OutFmt::Stats => "stats",
        OutFmt::Communities => "communities",
        OutFmt::CommunitiesHierarchy => "communities-hierarchy",
    }
}

/// A setting as the command line has it: where it is not given there, it has the value
/// that is used where nothing is said.
pub struct Flag<T> {
    pub value: T,
    pub given: bool,
}

/// The value of a setting: that of the command line where it is given there, or else
/// that of the file, or else the one that is used where nothing is said.
pub open spec fn picked<T>(given: bool, cli: T, file: Option<T>) -> T {
    match file {
        Some(v) => if given {
            cli
        } else {
            v
        },
        None => cli,
    }
}

/// The value of a setting that may have none.
pub open spec fn picked_any<T>(given: bool, cli: Option<T>, file: Option<T>) -> Option<T> {
    if given || file is None {
        cli
    } else {
        file
    }
}

/// The value of a setting: see [`picked`].
pub fn pick<T>(flag: Flag<T>, file: Option<T>) -> (r: T)
    ensures
        r == picked(flag.given, flag.value, file),
{
    match file {
        Some(v) => if flag.given {
            flag.value
        } else {
            v
        },
        None => flag.value,
    }
}

/// The value of a setting that may have none: see [`picked_any`].
pub fn pick_any<T>(flag: Flag<Option<T>>, file: Option<T>) -> (r: Option<T>)
    ensures
        r == picked_any(flag.given, flag.value, file),
{
    if flag.given || file.is_none() {
        flag.value
    } else {
        file
    }
}

/// What is said on the command line goes before what the file says, and that before
/// what is used where nothing is said.
pub proof fn law_command_line_goes_first<T>(cli: T, file: T, default: T)
    ensures
        picked(true, cli, Some(file)) == cli,
        picked(true, cli, None) == cli,
        picked(false, default, Some(file)) == file,
        picked(false, default, None::<T>) == default,
        picked_any(true, Some(cli), Some(file)) == Some(cli),
        picked_any(false, None::<T>, Some(file)) == Some(file),
        picked_any(false, None::<T>, None::<T>) is None,
{
}

/// The settings of the command line.
pub struct Args {
    pub engine: Flag<Engine>,
    pub model: Flag<Option<String>>,
    pub backend: Flag<Backend>,
    pub agent: Flag<String>,
    pub chunker: Flag<ChunkStrategy>,
    pub schema_mode: Flag<SchemaMode>,
    pub schema: Flag<Option<String>>,
    pub preset: Flag<Option<String>>,
    pub preset_file: Flag<Option<String>>,
    pub lang: Flag<Option<String>>,
    pub max_rounds: Flag<usize>,
    pub merge_strategy: Flag<MergeStrategy>,
    pub coref: bool,
    pub canonical_direction: bool,
    pub community_summaries: bool,
    pub max_concurrency: Flag<usize>,
    pub relation_gleaning: Flag<usize>,
    pub output: Flag<OutFmt>,
}

/// The settings of a file.
pub struct FileConfig {
    pub engine: Option<Engine>,
    pub model: Option<String>,
    pub backend: Option<Backend>,
    pub agent: Option<String>,
    pub chunker: Option<ChunkStrategy>,
    pub schema_mode: Option<SchemaMode>,
    pub schema: Option<String>,
    pub preset: Option<String>,
    pub preset_file: Option<String>,
    pub lang: Option<String>,
    pub max_rounds: Option<usize>,
    pub merge_strategy: Option<MergeStrategy>,
    pub coref: Option<bool>,
    pub canonical_direction: Option<bool>,
    pub community_summaries: Option<bool>,
    pub max_concurrency: Option<usize>,
    pub relation_gleaning: Option<usize>,
    pub output: Option<OutFmt>,
}

/// The settings that hold.
pub struct Resolved {
    pub engine: Engine,
    pub model: Option<String>,
    pub backend: Backend,
    pub agent: String,
    pub chunker: ChunkStrategy,
    pub schema_mode: SchemaMode,
    pub schema: Option<String>,
    pub preset: Option<String>,
    pub preset_file: Option<String>,
    pub lang: Option<String>,
    pub max_rounds: usize,
    pub merge_strategy: MergeStrategy,
    pub coref: bool,
    pub canonical_direction: bool,
    pub community_summaries: bool,
    pub max_concurrency: usize,
    pub relation_gleaning: usize,
    pub output: OutFmt,
}

impl Args {
    /// The settings of a command line on which nothing is said.
    pub fn unsaid() -> (r: Args)
        ensures
            r.engine == (Flag { value: Engine::Simple, given: false }),
            r.model == (Flag { value: None::<String>, given: false }),
            r.backend == (Flag { value: Backend::Llms, given: false }),
            r.agent.value@ == "minimaxcc"@,
            !r.agent.given,
            r.chunker == (Flag { value: ChunkStrategy::Recursive, given: false }),
            r.schema_mode == (Flag { value: SchemaMode::Open, given: false }),
            r.schema == (Flag { value: None::<String>, given: false }),
            r.preset == (Flag { value: None::<String>, given: false }),
            r.preset_file == (Flag { value: None::<String>, given: false }),
            r.lang == (Flag { value: None::<String>, given: false }),
            r.max_rounds == (Flag { value: 1usize, given: false }),
            r.merge_strategy == (Flag { value: MergeStrategy::KeepExisting, given: false }),
            !r.coref,
            !r.canonical_direction,
            !r.community_summaries,
            r.max_concurrency == (Flag { value: 8usize, given: false }),
            r.relation_gleaning == (Flag { value: 0usize, given: false }),
            r.output == (Flag { value: OutFmt::Json, given: false }),
    {
        Args {
            engine: Flag { value: Engine::Simple, given: false },
            model: Flag { value: None, given: false },
            backend: Flag { value: Backend::Llms, given: false },
            agent: Flag { value: "minimaxcc".to_owned(), given: false },
            chunker: Flag { value: ChunkStrategy::Recursive, given: false },
            schema_mode: Flag { value: SchemaMode::Open, given: false },
            schema: Flag { value: None, given: false },
            preset: Flag { value: None, given: false },
            preset_file: Flag { value: None, given: false },
            lang: Flag { value: None, given: false },
            max_rounds: Flag { value: 1, given: false },
            merge_strategy: Flag { value: MergeStrategy::KeepExisting, given: false },
            coref: false,
            canonical_direction: false,
            community_summaries: false,
            max_concurrency: Flag { value: 8, given: false },
            relation_gleaning: Flag { value: 0, given: false },
            output: Flag { value: OutFmt::Json, given: false },
        }
    }
}

impl FileConfig {
    /// The settings of a file that says nothing.
    pub fn empty() -> (r: FileConfig)
        ensures
            r == (FileConfig {
                engine: None,
                model: None,
                backend: None,
                agent: None,
                chunker: None,
                schema_mode: None,
                schema: None,
                preset: None,
                preset_file: None,
                lang: None,
                max_rounds: None,
                merge_strategy: None,
                coref: None,
                canonical_direction: None,
                community_summaries: None,
                max_concurrency: None,
                relation_gleaning: None,
                output: None,
            }),
    {
        FileConfig {
            engine: None,
            model: None,
            backend: None,
            agent: None,
            chunker: None,
            schema_mode: None,
            schema: None,
            preset: None,
            preset_file: None,
            lang: None,
            max_rounds: None,
            merge_strategy: None,
            coref: None,
            canonical_direction: None,
            community_summaries: None,
            max_concurrency: None,
            relation_gleaning: None,
            output: None,
        }
    }
}

/// The settings that hold. What can only be switched on holds where the command line or
/// the file switches it on.
pub open spec fn resolved(a: Args, f: FileConfig) -> Resolved {
    Resolved {
        engine: picked(a.engine.given, a.engine.value, f.engine),
        model: picked_any(a.model.given, a.model.value, f.model),
        backend: picked(a.backend.given, a.backend.value, f.backend),
        agent: picked(a.agent.given, a.agent.value, f.agent),
        chunker: picked(a.chunker.given, a.chunker.value, f.chunker),
        schema_mode: picked(a.schema_mode.given, a.schema_mode.value, f.schema_mode),
        schema: picked_any(a.schema.given, a.schema.value, f.schema),
        preset: picked_any(a.preset.given, a.preset.value, f.preset),
        preset_file: picked_any(a.preset_file.given, a.preset_file.value, f.preset_file),
        lang: picked_any(a.lang.given, a.lang.value, f.lang),
        max_rounds: picked(a.max_rounds.given, a.max_rounds.value, f.max_rounds),
        merge_strategy: picked(
            a.merge_strategy.given,
            a.merge_strategy.value,
            f.merge_strategy,
        ),
        coref: a.coref || f.coref == Some(true),
        canonical_direction: a.canonical_direction || f.canonical_direction == Some(true),
        community_summaries: a.community_summaries || f.community_summaries == Some(true),
        max_concurrency: picked(
            a.max_concurrency.given,
            a.max_concurrency.value,
            f.max_concurrency,
        ),
        relation_gleaning: picked(
            a.relation_gleaning.given,
            a.relation_gleaning.value,
            f.relation_gleaning,
        ),
        output: picked(a.output.given, a.output.value, f.output),
    }
}

/// Whether something is switched on.
fn is_on(flag: bool, file: Option<bool>) -> (r: bool)
    ensures
        r == (flag || file == Some(true)),
{
    match file {
        Some(b) => flag || b,
        None => flag,
    }
}

/// The settings that hold: see [`resolved`].
pub fn resolve(args: Args, cfg: FileConfig) -> (r: Resolved)
    ensures
        r == resolved(args, cfg),
{
    Resolved {
        engine: pick(args.engine, cfg.engine),
        model: pick_any(args.model, cfg.model),
        backend: pick(args.backend, cfg.backend),
        agent: pick(args.agent, cfg.agent),
        chunker: pick(args.chunker, cfg.chunker),
        schema_mode: pick(args.schema_mode, cfg.schema_mode),
        schema: pick_any(args.schema, cfg.schema),
        preset: pick_any(args.preset, cfg.preset),
        preset_file: pick_any(args.preset_file, cfg.preset_file),
        lang: pick_any(args.lang, cfg.lang),
        max_rounds: pick(args.max_rounds, cfg.max_rounds),
        merge_strategy: pick(args.merge_strategy, cfg.merge_strategy),
        coref: is_on(args.coref, cfg.coref),
        canonical_direction: is_on(args.canonical_direction, cfg.canonical_direction),
        community_summaries: is_on(args.community_summaries, cfg.community_summaries),
        max_concurrency: pick(args.max_concurrency, cfg.max_concurrency),
        relation_gleaning: pick(args.relation_gleaning, cfg.relation_gleaning),
        output: pick(args.output, cfg.output),
    }
}

/// `value` is what holds of a setting: what the command line says where it says anything,
/// else what the file says, else what is used where neither does.
pub open spec fn holds_of<T>(value: T, flag: Flag<T>, file: Option<T>) -> bool {
    &&& flag.given ==> value == flag.value
    &&& !flag.given && file is Some ==> Some(value) == file
    &&& !flag.given && file is None ==> value == flag.value
}

/// `value` is what holds of a setting that may have no value.
pub open spec fn holds_of_any<T>(
    value: Option<T>,
    flag: Flag<Option<T>>,
    file: Option<T>,
) -> bool {
    &&& flag.given ==> value == flag.value
    &&& !flag.given && file is Some ==> value == file
    &&& !flag.given && file is None ==> value == flag.value
}

/// Each setting is its own: it is what the command line says of it, or else what the file
/// says of it. What can only be switched on is on where either says so.
pub proof fn law_settings_are_their_own(a: Args, f: FileConfig)
    ensures
        ({
            let r = resolved(a, f);
            &&& holds_of(r.engine, a.engine, f.engine)
            &&& holds_of_any(r.model, a.model, f.model)
            &&& holds_of(r.backend, a.backend, f.backend)
            &&& holds_of(r.agent, a.agent, f.agent)
            &&& holds_of(r.chunker, a.chunker, f.chunker)
            &&& holds_of(r.schema_mode, a.schema_mode, f.schema_mode)
            &&& holds_of_any(r.schema, a.schema, f.schema)
            &&& holds_of_any(r.preset, a.preset, f.preset)
            &&& holds_of_any(r.preset_file, a.preset_file, f.preset_file)
            &&& holds_of_any(r.lang, a.lang, f.lang)
            &&& holds_of(r.max_rounds, a.max_rounds, f.max_rounds)
            &&& holds_of(r.merge_strategy, a.merge_strategy, f.merge_strategy)
            &&& r.coref <==> a.coref || f.coref == Some(true)
            &&& r.canonical_direction <==> a.canonical_direction || f.canonical_direction == Some(
                true,
            )
            &&& r.community_summaries <==> a.community_summaries || f.community_summaries == Some(
                true,
            )
            &&& holds_of(r.max_concurrency, a.max_concurrency, f.max_concurrency)
            &&& holds_of(r.relation_gleaning, a.relation_gleaning, f.relation_gleaning)
            &&& holds_of(r.output, a.output, f.output)
        }),
{
}

/// A path that starts in the home directory is one below it; every other path stays, and so
/// does every path where no home directory is known.
pub proof fn law_home_stands_for_itself(p: Seq<char>, h: Seq<char>)
    ensures
        expanded(p, None) == p,
        !text::has_prefix(p, "~/"@) ==> expanded(p, Some(h)) == p,
        p.len() > 2 && text::has_prefix(p, "~/"@) && p[2] != '/' ==> {
            let r = expanded(p, Some(h));
            &&& r.len() >= h.len() + p.len() - 2
            &&& r.take(h.len() as int) == h
            &&& r.skip(r.len() - (p.len() - 2)) == p.skip(2)
        },
{
    reveal_strlit("~/");
    assert("~/"@.len() == 2);
    reveal_strlit("/");
    assert("/"@.len() == 1);
    let r = expanded(p, Some(h));
    if p.len() > 2 && text::has_prefix(p, "~/"@) && p[2] != '/' {
        assert(p.skip(2)[0] == p[2]);
        assert("/"@[0] == '/');
        assert(!text::has_prefix(p.skip(2), "/"@)) by {
            if text::has_prefix(p.skip(2), "/"@) {
                assert(p.skip(2).take(1)[0] == p.skip(2)[0]);
            }
        }
        assert(r.take(h.len() as int) =~= h);
        assert(r.skip(r.len() - (p.len() - 2)) =~= p.skip(2));
    }
}

/// A path with the home directory in the place of `~`.
pub open spec fn expanded(p: Seq<char>, home: Option<Seq<char>>) -> Seq<char> {
    match home {
        Some(h) => if text::has_prefix(p, "~/"@) {
            let rest = p.skip(2);
            if text::has_prefix(rest, "/"@) {
                rest
            } else if h.len() == 0 || text::has_suffix(h, "/"@) {
                h + rest
            } else {
                h + "/"@ + rest
            }
        } else {
            p
        },
        None => p,
    }
}

/// A path with the home directory in the place of `~`; what follows replaces it where it
/// is an absolute path.
pub fn expand_tilde(p: &str, home: Option<&str>) -> (r: String)
    ensures
        r@ == expanded(
            p@,
            match home {
                Some(h) => Some(h@),
                None => None,
            },
        ),
{
    match home {
        Some(h) => {
            if !text::starts_with(p, "~/") {
                return p.to_owned();
            }
            proof {
                reveal_strlit("~/");
            }
            let v = text::chars_of(p);
            let rest = text::text_of(&v, 2, v.len());
            assert(rest@ =~= p@.skip(2));
            if text::starts_with(rest.as_str(), "/") {
                rest
            } else if h.unicode_len() == 0 || text::ends_with(h, "/") {
                text::concat2(h, rest.as_str())
            } else {
                text::concat2(text::concat2(h, "/").as_str(), rest.as_str())
            }
        },
        None => p.to_owned(),
    }
}

/// The settings are written out on the spot, and not in a file.
pub open spec fn is_written_out(arg: Seq<char>) -> bool {
    text::has_prefix(text::trimmed_start(arg), "{"@)
}

/// Whether the settings are written out on the spot: as a JSON object.
pub fn is_inline_config(arg: &str) -> (r: bool)
    ensures
        r == is_written_out(arg@),
{
    let v = text::chars_of(arg);
    let mut i: usize = 0;
    assert(v@.subrange(0, v@.len() as int) =~= v@);
    while i < v.len() && text::is_white_char(v[i])
        invariant
            i <= v@.len(),
            v@ == arg@,
            text::trimmed_start(arg@) == text::trimmed_start(
                v@.subrange(i as int, v@.len() as int),
            ),
        decreases v.len() - i,
    {
        let ghost rest = v@.subrange(i as int, v@.len() as int);
        assert(rest[0] == v@[i as int]);
        assert(rest.subrange(1, rest.len() as int) =~= v@.subrange(i + 1, v@.len() as int));
        i += 1;
    }
    proof {
        reveal_strlit("{");
        let rest = v@.subrange(i as int, v@.len() as int);
        if i < v@.len() {
            assert(rest[0] == v@[i as int]);
        }
        assert(text::trimmed_start(rest) == rest);
        if i < v@.len() {
            assert(text::occurs_at(rest, "{"@, 0) == (rest[0] == '{')) by {
                if rest[0] == '{' {
                    assert(rest.subrange(0, 1) =~= "{"@);
                } else {
                    assert(rest.subrange(0, 1)[0] == rest[0]);
                }
            }
        }
    }
    i < v.len() && v[i] == '{'
}

/// The engine that is used. Where there is a template, only one engine can follow it.
pub open spec fn routed(e: Engine, template: bool) -> Engine {
    if template {
        Engine::SchemaJson
    } else {
        e
    }
}

/// The engine that is used, and whether it is another one than was asked for.
pub fn route(e: Engine, template: bool) -> (r: (Engine, bool))
    ensures
        r.0 == routed(e, template),
        r.1 == (r.0 != e),
{
    if template && e != Engine::SchemaJson {
        (Engine::SchemaJson, true)
    } else {
        (e, false)
    }
}

/// What citations call the document.
pub open spec fn document_name(p: Option<PreChunkedV>, file: Option<Seq<char>>) -> Option<
    Seq<char>,
> {
    match p {
        Some(c) => c.source,
        None => if file == Some("-"@) {
            None
        } else {
            file
        },
    }
}

/// What citations call the document: what the chunks name, or else the file, where the
/// input is read from one.
pub fn source_document(prechunked: &Option<PreChunked>, file: &Option<String>) -> (r: Option<
    String,
>)
    ensures
        seqs::opt_view(r) == document_name(
            seqs::opt_view(*prechunked),
            seqs::opt_view(*file),
        ),
{
    match prechunked {
        Some(p) => dup_option(&p.source),
        None => match file {
            Some(f) => if text::same(f.as_str(), "-") {
                None
            } else {
                Some(f.clone())
            },
            None => None,
        },
    }
}

/// Names that differ are of one thing, or not.
pub open spec fn coref_of(coref: bool) -> CorefMode {
    if coref {
        CorefMode::Fuzzy
    } else {
        CorefMode::Off
    }
}

/// A configuration `c` with the settings that hold for every engine.
pub open spec fn configured(
    c: ConfigV,
    chunker: ChunkStrategy,
    doc: Option<Seq<char>>,
    model: Option<Seq<char>>,
) -> ConfigV {
    ConfigV {
        chunker,
        source_doc: doc,
        model_name: match model {
            Some(m) => m,
            None => c.model_name,
        },
        ..c
    }
}

/// A configuration `c` with a schema, where there is one.
pub open spec fn with_schema(c: ConfigV, s: Option<SchemaV>) -> ConfigV {
    match s {
        Some(schema) => ConfigV { spec: SpecV { schema, ..c.spec }, ..c },
        None => c,
    }
}

/// The configuration of an engine.
pub open spec fn engine_config(
    r: Resolved,
    doc: Option<Seq<char>>,
    schema: Option<SchemaV>,
    template: bool,
) -> ConfigV {
    let model = seqs::opt_view(r.model);
    match r.engine {
        Engine::Agentic => with_schema(
            configured(
                crate::types::spec::plain_config("agent"@, 5000),
                r.chunker,
                doc,
                model,
            ),
            schema,
        ),
        Engine::Simple => {
            let c = configured(
                crate::types::spec::plain_config("qwen-max"@, 5000),
                r.chunker,
                doc,
                model,
            );
            ConfigV {
                max_concurrency: r.max_concurrency,
                spec: SpecV {
                    merge_strategy: r.merge_strategy,
                    coref: coref_of(r.coref),
                    canonical_direction: r.canonical_direction,
                    ..c.spec
                },
                ..c
            }
        },
        Engine::SchemaJson => {
            let c = with_schema(
                configured(
                    crate::types::spec::plain_config("qwen-max"@, 3000),
                    r.chunker,
                    doc,
                    model,
                ),
                schema,
            );
            ConfigV {
                spec: SpecV {
                    merge_strategy: r.merge_strategy,
                    coref: coref_of(r.coref),
                    canonical_direction: r.canonical_direction,
                    language: if template {
                        seqs::opt_view(r.lang)
                    } else {
                        c.spec.language
                    },
                    ..c.spec
                },
                ..c
            }
        },
        Engine::Toolcall => {
            let c = with_schema(
                configured(
                    crate::types::spec::plain_config("qwen-max"@, 5000),
                    r.chunker,
                    doc,
                    model,
                ),
                schema,
            );
            ConfigV {
                spec: SpecV {
                    merge_strategy: r.merge_strategy,
                    coref: coref_of(r.coref),
                    canonical_direction: r.canonical_direction,
                    ..c.spec
                },
                ..c
            }
        },
    }
}

/// The configuration of an engine: what it starts from, with the settings that it heeds.
pub fn configure(
    r: &Resolved,
    source_doc: Option<String>,
    schema: Option<Schema>,
    template_loaded: bool,
) -> (c: ExtractionConfig)
    ensures
        c@ == engine_config(
            *r,
            seqs::opt_view(source_doc),
            seqs::opt_view(schema),
            template_loaded,
        ),
{
    let mut c = match r.engine {
        Engine::Agentic => AgenticExtractor::default_config(),
        Engine::Simple => SimpleExtractor::default_config(),
        Engine::SchemaJson => SchemaJsonExtractor::default_config(),
        Engine::Toolcall => ToolCallExtractor::default_config(),
    };
    c.chunker = r.chunker;
    c.source_doc = source_doc;
    if let Some(m) = &r.model {
        c.model_name = m.clone();
    }
    let coref = if r.coref {
        CorefMode::Fuzzy
    } else {
        CorefMode::Off
    };
    match r.engine {
        Engine::Agentic => {
            if let Some(s) = schema {
                c.spec.schema = s;
            }
        },
        Engine::Simple => {
            c.max_concurrency = r.max_concurrency;
            c.spec.merge_strategy = r.merge_strategy;
            c.spec.coref = coref;
            c.spec.canonical_direction = r.canonical_direction;
        },
        Engine::SchemaJson => {
            if let Some(s) = schema {
                c.spec.schema = s;
            }
            c.spec.merge_strategy = r.merge_strategy;
            c.spec.coref = coref;
            c.spec.canonical_direction = r.canonical_direction;
            if template_loaded {
                c.spec.language = dup_option(&r.lang);
            }
        },
        Engine::Toolcall => {
            if let Some(s) = schema {
                c.spec.schema = s;
            }
            c.spec.merge_strategy = r.merge_strategy;
            c.spec.coref = coref;
            c.spec.canonical_direction = r.canonical_direction;
        },
    }
    c
}

/// A call of a tool as it is scripted: an id where one is given, a name and arguments.
pub struct ScriptedCall {
    pub id: Option<String>,
    pub name: String,
    pub arguments: Json,
}

/// What a [`ScriptedCall`] stands for.
pub struct ScriptedCallV {
    pub id: Option<Seq<char>>,
    pub name: Seq<char>,
    pub arguments: JsonV,
}

impl View for ScriptedCall {
    type V = ScriptedCallV;

    open spec fn view(&self) -> ScriptedCallV {
        ScriptedCallV {
            id: seqs::opt_view(self.id),
            name: self.name@,
            arguments: self.arguments@,
        }
    }
}

/// An engine works with the settings that hold: it cites the document that is given, cuts
/// it as was asked for, asks the model that was asked for, and looks for the types of the
/// schema that is given; it combines and turns what it finds as was asked for, but where an
/// agent does so.
pub proof fn law_engines_work_with_the_settings(
    r: Resolved,
    doc: Option<Seq<char>>,
    schema: Option<SchemaV>,
    template: bool,
)
    ensures
        ({
            let c = engine_config(r, doc, schema, template);
            &&& c.source_doc == doc
            &&& c.chunker == r.chunker
            &&& r.model is Some ==> c.model_name == r.model->0@
            &&& schema is Some && r.engine !is Simple ==> c.spec.schema == schema->0
            &&& r.engine is Simple ==> c.max_concurrency == r.max_concurrency
            &&& r.engine !is Agentic ==> {
                &&& c.spec.merge_strategy == r.merge_strategy
                &&& r.coref ==> c.spec.coref == CorefMode::Fuzzy
                &&& !r.coref ==> c.spec.coref == CorefMode::Off
                &&& c.spec.canonical_direction == r.canonical_direction
            }
            &&& r.engine is SchemaJson && template ==> c.spec.language == seqs::opt_view(r.lang)
        }),
{
}

/// The call `n` of the round `round`. One without an id has its place for one.
pub open spec fn scripted_call(round: nat, n: nat, c: ScriptedCallV) -> InvocationV {
    InvocationV {
        id: match c.id {
            Some(id) => id,
            None => "mock_"@ + text::decimal(round) + "_"@ + text::decimal(n),
        },
        name: c.name,
        arguments: c.arguments,
    }
}

/// A scripted call is made as it is written, under the id that it gives. Calls in one list
/// are one round; lists of calls are one round each, in their order.
pub proof fn law_scripts_are_played_in_order(a: Seq<JsonV>, i: int, j: int)
    ensures
        forall|round: nat, n: nat, c: ScriptedCallV|
            (#[trigger] scripted_call(round, n, c)).name == c.name && scripted_call(
                round,
                n,
                c,
            ).arguments == c.arguments && (c.id matches Some(id) ==> scripted_call(
                round,
                n,
                c,
            ).id == id),
        match rounds_in(JsonV::Array(a)) {
            Ok(rs) => if a.len() > 0 && a[0] is Array {
                rs.len() == a.len() && (0 <= i < a.len() ==> {
                    &&& a[i] matches JsonV::Array(cs)
                    &&& rs[i].len() == cs.len()
                    &&& 0 <= j < cs.len() ==> call_in(cs[j]) is Some && rs[i][j].name == call_in(
                        cs[j],
                    )->0.name && rs[i][j].arguments == call_in(cs[j])->0.arguments
                })
            } else {
                rs.len() == 1 && rs[0].len() == a.len() && (0 <= j < a.len() ==> call_in(a[j])
                    is Some && rs[0][j].name == call_in(a[j])->0.name && rs[0][j].arguments
                    == call_in(a[j])->0.arguments)
            },
            Err(_) => true,
        },
{
    if a.len() > 0 && a[0] is Array {
        lemma_rounds_are_good(a, 0);
        if 0 <= i < a.len() && bad_round(a, 0) is None {
            if let JsonV::Array(cs) = a[i] {
                lemma_calls_are_good(cs, 0);
            }
        }
    } else {
        lemma_calls_are_good(a, 0);
    }
}

proof fn lemma_calls_are_good(a: Seq<JsonV>, from: int)
    requires
        0 <= from,
    ensures
        no_call(a, from) is None ==> forall|j: int|
            from <= j < a.len() ==> call_in(#[trigger] a[j]) is Some,
    decreases a.len() - from,
{
    if from < a.len() {
        lemma_calls_are_good(a, from + 1);
    }
}

proof fn lemma_rounds_are_good(a: Seq<JsonV>, from: int)
    requires
        0 <= from,
    ensures
        bad_round(a, from) is None ==> forall|j: int|
            from <= j < a.len() ==> round_in(j as nat, #[trigger] a[j]) is Ok,
    decreases a.len() - from,
{
    if from < a.len() {
        lemma_rounds_are_good(a, from + 1);
    }
}

/// The calls of a round.
pub open spec fn scripted_round(round: nat, cs: Seq<ScriptedCallV>) -> Seq<InvocationV> {
    Seq::new(cs.len(), |i: int| scripted_call(round, i as nat, cs[i]))
}

/// The calls of a round.
pub fn raw_round_to_invocations(round_idx: usize, calls: &Vec<ScriptedCall>) -> (r: Vec<
    ToolInvocation,
>)
    ensures
        seqs::views(r@) == scripted_round(round_idx as nat, seqs::views(calls@)),
{
    let ghost all = scripted_round(round_idx as nat, seqs::views(calls@));
    let mut out: Vec<ToolInvocation> = Vec::new();
    let mut i: usize = 0;
    while i < calls.len()
        invariant
            i <= calls@.len(),
            all == scripted_round(round_idx as nat, seqs::views(calls@)),
            seqs::views(out@) =~= all.take(i as int),
        decreases calls.len() - i,
    {
        let id = match &calls[i].id {
            Some(id) => id.clone(),
            None => {
                let mut s = text::concat2("mock_", text::to_decimal(round_idx as u64).as_str());
                s.append("_");
                s.append(text::to_decimal(i as u64).as_str());
                s
            },
        };
        let name = calls[i].name.clone();
        let arguments = calls[i].arguments.dup();
        assert(seqs::views(calls@)[i as int] == calls@[i as int]@);
        out.push(ToolInvocation { id, name, arguments });
        i += 1;
    }
    assert(seqs::views(out@) =~= all);
    out
}

/// The id that a scripted call gives: a text, or none; nothing where it is something
/// else.
pub open spec fn id_in(v: Option<JsonV>) -> Option<Option<Seq<char>>> {
    match v {
        None => Some(None),
        Some(JsonV::Null) => Some(None),
        Some(JsonV::Text(t)) => Some(Some(t)),
        Some(_) => None,
    }
}

/// The arguments that a scripted call gives, under one of two names; nothing where it
/// gives both.
pub open spec fn arguments_in(v: JsonV) -> Option<JsonV> {
    match (json::field(v, "arguments"@), json::field(v, "args"@)) {
        (Some(_), Some(_)) => None,
        (Some(a), None) => Some(a),
        (None, Some(a)) => Some(a),
        (None, None) => Some(JsonV::Null),
    }
}

/// The call that a value gives: an object with a name and maybe an id and arguments, or
/// a list of the id, the name and maybe the arguments.
pub open spec fn call_in(v: JsonV) -> Option<ScriptedCallV> {
    match v {
        JsonV::Object(_) => match (
            id_in(json::field(v, "id"@)),
            json::text_in(json::field(v, "name"@)),
            arguments_in(v),
        ) {
            (Some(id), Some(name), Some(arguments)) => Some(
                ScriptedCallV { id, name, arguments },
            ),
            _ => None,
        },
        JsonV::Array(a) => if a.len() == 2 || a.len() == 3 {
            match (id_in(Some(a[0])), json::text_in(Some(a[1]))) {
                (Some(id), Some(name)) => Some(
                    ScriptedCallV {
                        id,
                        name,
                        arguments: if a.len() == 3 {
                            a[2]
                        } else {
                            JsonV::Null
                        },
                    },
                ),
                _ => None,
            }
        } else {
            None
        },
        _ => None,
    }
}

/// A call that is written as an object is the one that is written as a list of its id, its
/// name and its arguments.
pub proof fn law_calls_read_alike(
    o: Seq<(Seq<char>, JsonV)>,
    id: Seq<char>,
    name: Seq<char>,
    arguments: JsonV,
)
    requires
        table::lookup(o, "id"@) == Some(JsonV::Text(id)),
        table::lookup(o, "name"@) == Some(JsonV::Text(name)),
        table::lookup(o, "arguments"@) == Some(arguments) && !table::has_key(o, "args"@)
            || table::lookup(o, "args"@) == Some(arguments) && !table::has_key(o, "arguments"@),
    ensures
        ({
            let a = call_in(JsonV::Object(o));
            let b = call_in(JsonV::Array(seq![JsonV::Text(id), JsonV::Text(name), arguments]));
            &&& a == b
            &&& a is Some
            &&& (a->0).id == Some(id) && (a->0).name == name && (a->0).arguments == arguments
        }),
{
}

/// The first of the values `a`, from `from` on, that gives no call.
pub open spec fn no_call(a: Seq<JsonV>, from: int) -> Option<int>
    decreases a.len() - from,
{
    if 0 <= from < a.len() {
        if call_in(a[from]) is None {
            Some(from)
        } else {
            no_call(a, from + 1)
        }
    } else {
        None
    }
}

/// What is said where the value `n` of the round `round` gives no call.
pub open spec fn no_call_text(round: nat, n: nat) -> Seq<char> {
    "--mock-tool-calls: round "@ + text::decimal(round) + ", call "@ + text::decimal(n)
        + " is not a tool call"@
}

/// What is said where a round is no list.
pub open spec fn no_round_text(round: nat) -> Seq<char> {
    "--mock-tool-calls: round "@ + text::decimal(round) + " is not a list of tool calls"@
}

/// The calls that the round `round` gives.
pub open spec fn round_in(round: nat, v: JsonV) -> Result<Seq<InvocationV>, Seq<char>> {
    match v {
        JsonV::Array(a) => match no_call(a, 0) {
            Some(n) => Err(no_call_text(round, n as nat)),
            None => Ok(scripted_round(round, Seq::new(a.len(), |i: int| call_in(a[i])->0))),
        },
        _ => Err(no_round_text(round)),
    }
}

/// The first of the rounds `a`, from `from` on, that cannot be read.
pub open spec fn bad_round(a: Seq<JsonV>, from: int) -> Option<int>
    decreases a.len() - from,
{
    if 0 <= from < a.len() {
        if round_in(from as nat, a[from]) is Err {
            Some(from)
        } else {
            bad_round(a, from + 1)
        }
    } else {
        None
    }
}

/// The rounds that a value gives: a list of rounds where the first is a list, and else
/// one round.
pub open spec fn rounds_in(v: JsonV) -> Result<Seq<Seq<InvocationV>>, Seq<char>> {
    match v {
        JsonV::Array(a) => if a.len() > 0 && a[0] is Array {
            match bad_round(a, 0) {
                Some(n) => Err(round_in(n as nat, a[n])->Err_0),
                None => Ok(Seq::new(a.len(), |i: int| round_in(i as nat, a[i])->Ok_0)),
            }
        } else {
            match round_in(0, v) {
                Ok(r) => Ok(seq![r]),
                Err(e) => Err(e),
            }
        },
        _ => Err(no_round_text(0)),
    }
}

/// The id that a scripted call gives.
fn read_id(v: Option<&Json>) -> (r: Option<Option<String>>)
    ensures
        match r {
            Some(id) => id_in(json_view_of(v)) == Some(seqs::opt_view(id)),
            None => id_in(json_view_of(v)) is None,
        },
{
    match v {
        None => Some(None),
        Some(Json::Null) => Some(None),
        Some(Json::Text(t)) => Some(Some(t.clone())),
        Some(_) => None,
    }
}

/// What stands for a value that may be left out.
spec fn json_view_of(v: Option<&Json>) -> Option<JsonV> {
    match v {
        Some(j) => Some(j@),
        None => None,
    }
}

/// The call that a value gives: see [`call_in`].
fn read_call(v: &Json) -> (r: Option<ScriptedCall>)
    ensures
        seqs::opt_view(r) == call_in(v@),
{
    match v {
        Json::Object(_) => {
            let id = match read_id(v.get("id")) {
                Some(id) => id,
                None => {
                    return None;
                },
            };
            let name = match v.text_at("name") {
                Some(t) => t,
                None => {
                    return None;
                },
            };
            let arguments = match (v.get("arguments"), v.get("args")) {
                (Some(_), Some(_)) => {
                    return None;
                },
                (Some(a), None) => a.dup(),
                (None, Some(a)) => a.dup(),
                (None, None) => Json::Null,
            };
            Some(ScriptedCall { id, name, arguments })
        },
        Json::Array(a) => {
            if a.len() != 2 && a.len() != 3 {
                return None;
            }
            assert(seqs::views(a@)[0] == a@[0]@ && seqs::views(a@)[1] == a@[1]@);
            let id = match read_id(Some(&a[0])) {
                Some(id) => id,
                None => {
                    return None;
                },
            };
            let name = match &a[1] {
                Json::Text(t) => t.clone(),
                _ => {
                    return None;
                },
            };
            let arguments = if a.len() == 3 {
                assert(seqs::views(a@)[2] == a@[2]@);
                a[2].dup()
            } else {
                Json::Null
            };
            Some(ScriptedCall { id, name, arguments })
        },
        _ => None,
    }
}

/// The calls that the round `round` gives: see [`round_in`].
fn read_round(round: usize, v: &Json) -> (r: Result<Vec<ToolInvocation>, String>)
    ensures
        match r {
            Ok(cs) => round_in(round as nat, v@) == Ok::<Seq<InvocationV>, Seq<char>>(
                seqs::views(cs@),
            ),
            Err(e) => round_in(round as nat, v@) == Err::<Seq<InvocationV>, Seq<char>>(e@),
        },
{
    let a = match v {
        Json::Array(a) => a,
        _ => {
            let mut s = text::concat2(
                "--mock-tool-calls: round ",
                text::to_decimal(round as u64).as_str(),
            );
            s.append(" is not a list of tool calls");
            return Err(s);
        },
    };
    let ghost vs = seqs::views(a@);
    let ghost all = Seq::new(vs.len(), |i: int| call_in(vs[i])->0);
    let mut calls: Vec<ScriptedCall> = Vec::new();
    let mut i: usize = 0;
    while i < a.len()
        invariant
            i <= a@.len(),
            vs == seqs::views(a@),
            v@ == JsonV::Array(vs),
            all == Seq::new(vs.len(), |i: int| call_in(vs[i])->0),
            no_call(vs, 0) == no_call(vs, i as int),
            seqs::views(calls@) =~= all.take(i as int),
        decreases a.len() - i,
    {
        assert(vs[i as int] == a@[i as int]@);
        match read_call(&a[i]) {
            Some(c) => {
                assert(c@ == all[i as int]);
                calls.push(c);
            },
            None => {
                let mut s = text::concat2(
                    "--mock-tool-calls: round ",
                    text::to_decimal(round as u64).as_str(),
                );
                s.append(", call ");
                s.append(text::to_decimal(i as u64).as_str());
                s.append(" is not a tool call");
                return Err(s);
            },
        }
        i += 1;
    }
    assert(seqs::views(calls@) =~= all);
    Ok(raw_round_to_invocations(round, &calls))
}

/// The rounds of calls of tools that a value gives: see [`rounds_in`].
pub fn tool_rounds(j: &Json) -> (r: Result<Vec<Vec<ToolInvocation>>, String>)
    ensures
        match r {
            Ok(rs) => rounds_in(j@) == Ok::<Seq<Seq<InvocationV>>, Seq<char>>(
                mock::round_views(rs@),
            ),
            Err(e) => rounds_in(j@) == Err::<Seq<Seq<InvocationV>>, Seq<char>>(e@),
        },
{
    let mut rounds: Vec<Vec<ToolInvocation>> = Vec::new();
    let nested = match j {
        Json::Array(a) => if a.len() > 0 {
            assert(seqs::views(a@)[0] == a@[0]@);
            match &a[0] {
                Json::Array(_) => true,
                _ => false,
            }
        } else {
            false
        },
        _ => false,
    };
    if !nested {
        return match read_round(0, j) {
            Ok(r) => {
                let ghost only = seqs::views(r@);
                rounds.push(r);
                assert(mock::round_views(rounds@) =~= seq![only]);
                Ok(rounds)
            },
            Err(e) => Err(e),
        };
    }
    if let Json::Array(a) = j {
        let ghost vs = seqs::views(a@);
        let ghost all = Seq::new(vs.len(), |i: int| round_in(i as nat, vs[i])->Ok_0);
        let mut i: usize = 0;
        while i < a.len()
            invariant
                i <= a@.len(),
                vs == seqs::views(a@),
                j@ == JsonV::Array(vs),
                vs.len() > 0 && vs[0] is Array,
                all == Seq::new(vs.len(), |i: int| round_in(i as nat, vs[i])->Ok_0),
                bad_round(vs, 0) == bad_round(vs, i as int),
                mock::round_views(rounds@) =~= all.take(i as int),
            decreases a.len() - i,
        {
            assert(vs[i as int] == a@[i as int]@);
            match read_round(i, &a[i]) {
                Ok(r) => {
                    let ghost before = mock::round_views(rounds@);
                    let ghost more = seqs::views(r@);
                    rounds.push(r);
                    assert(mock::round_views(rounds@) =~= before.push(more));
                    assert(more == all[i as int]);
                },
                Err(e) => {
                    return Err(e);
                },
            }
            i += 1;
        }
        assert(mock::round_views(rounds@) =~= all);
    }
    Ok(rounds)
}

/// The protocol by which another program can drive this one.
pub const PROVIDER_PROTOCOL: &'static str = "kg.provider/v1";

/// What the program can do.
pub open spec fn description() -> JsonV {
    JsonV::Object(
        seq![
            ("name"@, JsonV::Text("kg-extract"@)),
            (
                "summary"@,
                JsonV::Text(
                    "Extract a knowledge graph from text with simple, schema-json, toolcall, or agentic engines."@,
                ),
            ),
            (
                "supports"@,
                JsonV::Object(
                    seq![
                        ("describe"@, JsonV::Bool(true)),
                        (
                            "json"@,
                            JsonV::Text(
                                "use --json with --describe or --dry-run; extraction JSON is selected with -o json/jsonl/kg-protocol/node-link/ladybug-import/stats"@,
                            ),
                        ),
                        (
                            "dry_run"@,
                            JsonV::Text(
                                "prints the resolved extraction plan without reading input or calling a backend"@,
                            ),
                        ),
                        ("provider_protocol"@, JsonV::Text(PROVIDER_PROTOCOL@)),
                    ],
                ),
            ),
            (
                "examples"@,
                json::texts(
                    seq![
                        "kg-extract --describe --json"@,
                        "kg-extract --dry-run --json -e schema-json -b agent --agent minimaxcc -f doc.md"@,
                        "kg-extract -e simple -b mock --mock-response '{\"entities\":{},\"relationships\":[]}' -f doc.txt -o json"@,
                    ],
                ),
            ),
            (
                "outputs"@,
                json::texts(
                    seq![
                        "json"@,
                        "jsonl"@,
                        "kg-protocol"@,
                        "node-link"@,
                        "ladybug-import"@,
                        "mermaid"@,
                        "stats"@,
                    ],
                ),
            ),
        ],
    )
}

/// What the program can do.
pub fn describe_value() -> (r: Json)
    ensures
        r@ == description(),
{
    let supports = ObjectBuilder::new().with("describe", Json::Bool(true)).with(
        "json",
        json::string(
            "use --json with --describe or --dry-run; extraction JSON is selected with -o json/jsonl/kg-protocol/node-link/ladybug-import/stats",
        ),
    ).with(
        "dry_run",
        json::string(
            "prints the resolved extraction plan without reading input or calling a backend",
        ),
    ).with("provider_protocol", json::string(PROVIDER_PROTOCOL)).done();
    let mut examples: Vec<String> = Vec::new();
    examples.push("kg-extract --describe --json".to_owned());
    examples.push(
        "kg-extract --dry-run --json -e schema-json -b agent --agent minimaxcc -f doc.md".to_owned(),
    );
    examples.push(
        "kg-extract -e simple -b mock --mock-response '{\"entities\":{},\"relationships\":[]}' -f doc.txt -o json".to_owned(),
    );
    let mut outputs: Vec<String> = Vec::new();
    outputs.push("json".to_owned());
    outputs.push("jsonl".to_owned());
    outputs.push("kg-protocol".to_owned());
    outputs.push("node-link".to_owned());
    outputs.push("ladybug-import".to_owned());
    outputs.push("mermaid".to_owned());
    outputs.push("stats".to_owned());
    let ghost d = description()->Object_0;
    assert(supports@->Object_0 =~= (d[2].1)->Object_0);
    assert(json::texts(seqs::views(examples@))->Array_0 =~= (d[3].1)->Array_0);
    assert(json::texts(seqs::views(outputs@))->Array_0 =~= (d[4].1)->Array_0);
    let r = ObjectBuilder::new().with("name", json::string("kg-extract")).with(
        "summary",
        json::string(
            "Extract a knowledge graph from text with simple, schema-json, toolcall, or agentic engines.",
        ),
    ).with("supports", supports).with("examples", json::texts_of(&examples)).with(
        "outputs",
        json::texts_of(&outputs),
    ).done();
    assert(r@->Object_0 =~= d);
    r
}

/// Where the input comes from.
pub open spec fn input_source(file: Option<Seq<char>>) -> Seq<char> {
    match file {
        Some(f) => f,
        None => "stdin"@,
    }
}

/// The settings that hold, as a plan shows them.
pub open spec fn plan_settings(r: Resolved, template: bool) -> JsonV {
    JsonV::Object(
        seq![
            ("engine"@, JsonV::Text(name_of_engine(r.engine))),
            ("model"@, json::text_or_null(seqs::opt_view(r.model))),
            ("backend"@, JsonV::Text(name_of_backend(r.backend))),
            ("agent"@, JsonV::Text(r.agent@)),
            ("chunker"@, JsonV::Text(name_of_chunker(r.chunker))),
            ("schema_mode"@, JsonV::Text(crate::types::spec::mode_name(r.schema_mode))),
            ("schema"@, json::text_or_null(seqs::opt_view(r.schema))),
            ("preset"@, json::text_or_null(seqs::opt_view(r.preset))),
            ("preset_file"@, json::text_or_null(seqs::opt_view(r.preset_file))),
            ("template_loaded"@, JsonV::Bool(template)),
            ("lang"@, json::text_or_null(seqs::opt_view(r.lang))),
            ("max_rounds"@, JsonV::Uint(r.max_rounds as u64)),
            ("merge_strategy"@, JsonV::Text(name_of_strategy(r.merge_strategy))),
            ("coref"@, JsonV::Bool(r.coref)),
            ("max_concurrency"@, JsonV::Uint(r.max_concurrency as u64)),
            ("relation_gleaning"@, JsonV::Uint(r.relation_gleaning as u64)),
            ("output"@, JsonV::Text(name_of_output(r.output))),
        ],
    )
}

/// A plan tells each setting under its own name.
pub proof fn law_plans_tell_the_settings(r: Resolved, template: bool)
    ensures
        ({
            let p = plan_settings(r, template);
            &&& json::field(p, "engine"@) == Some(JsonV::Text(name_of_engine(r.engine)))
            &&& r.model matches Some(m) ==> json::text_in(json::field(p, "model"@)) == Some(m@)
            &&& json::field(p, "backend"@) == Some(JsonV::Text(name_of_backend(r.backend)))
            &&& json::text_in(json::field(p, "agent"@)) == Some(r.agent@)
            &&& json::field(p, "chunker"@) == Some(JsonV::Text(name_of_chunker(r.chunker)))
            &&& json::field(p, "schema_mode"@) == Some(
                JsonV::Text(crate::types::spec::mode_name(r.schema_mode)),
            )
            &&& r.schema matches Some(s) ==> json::text_in(json::field(p, "schema"@)) == Some(s@)
            &&& r.preset matches Some(s) ==> json::text_in(json::field(p, "preset"@)) == Some(s@)
            &&& r.preset_file matches Some(s) ==> json::text_in(json::field(p, "preset_file"@))
                == Some(s@)
            &&& json::field(p, "template_loaded"@) == Some(JsonV::Bool(template))
            &&& r.lang matches Some(s) ==> json::text_in(json::field(p, "lang"@)) == Some(s@)
            &&& json::field(p, "max_rounds"@) == Some(JsonV::Uint(r.max_rounds as u64))
            &&& json::field(p, "merge_strategy"@) == Some(
                JsonV::Text(name_of_strategy(r.merge_strategy)),
            )
            &&& json::field(p, "coref"@) == Some(JsonV::Bool(r.coref))
            &&& json::field(p, "max_concurrency"@) == Some(JsonV::Uint(r.max_concurrency as u64))
            &&& json::field(p, "relation_gleaning"@) == Some(
                JsonV::Uint(r.relation_gleaning as u64),
            )
            &&& json::field(p, "output"@) == Some(JsonV::Text(name_of_output(r.output)))
        }),
{
    reveal_strlit("engine");
    assert("engine"@.len() == 6);
    assert("engine"@.len() == 6);
    reveal_strlit("model");
    assert("model"@.len() == 5);
    assert("model"@.len() == 5);
    reveal_strlit("backend");
    assert("backend"@.len() == 7);
    assert("backend"@.len() == 7);
    reveal_strlit("agent");
    assert("agent"@.len() == 5);
    assert("agent"@.len() == 5);
    reveal_strlit("chunker");
    assert("chunker"@.len() == 7);
    assert("chunker"@.len() == 7);
    reveal_strlit("schema_mode");
    assert("schema_mode"@.len() == 11);
    assert("schema_mode"@.len() == 11);
    reveal_strlit("schema");
    assert("schema"@.len() == 6);
    assert("schema"@.len() == 6);
    reveal_strlit("preset");
    assert("preset"@.len() == 6);
    assert("preset"@.len() == 6);
    reveal_strlit("preset_file");
    assert("preset_file"@.len() == 11);
    assert("preset_file"@.len() == 11);
    reveal_strlit("template_loaded");
    assert("template_loaded"@.len() == 15);
    assert("template_loaded"@.len() == 15);
    reveal_strlit("lang");
    assert("lang"@.len() == 4);
    assert("lang"@.len() == 4);
    reveal_strlit("max_rounds");
    assert("max_rounds"@.len() == 10);
    assert("max_rounds"@.len() == 10);
    reveal_strlit("merge_strategy");
    assert("merge_strategy"@.len() == 14);
    assert("merge_strategy"@.len() == 14);
    reveal_strlit("coref");
    assert("coref"@.len() == 5);
    assert("coref"@.len() == 5);
    reveal_strlit("max_concurrency");
    assert("max_concurrency"@.len() == 15);
    assert("max_concurrency"@.len() == 15);
    reveal_strlit("relation_gleaning");
    assert("relation_gleaning"@.len() == 17);
    assert("relation_gleaning"@.len() == 17);
    reveal_strlit("output");
    assert("output"@.len() == 6);
    assert("output"@.len() == 6);
    assert("engine"@[0] != "schema"@[0]);
    assert("engine"@[0] != "preset"@[0]);
    assert("engine"@[0] != "output"@[0]);
    assert("model"@[0] != "agent"@[0]);
    assert("model"@[0] != "coref"@[0]);
    assert("backend"@[0] != "chunker"@[0]);
    assert("agent"@[0] != "coref"@[0]);
    assert("schema_mode"@[0] != "preset_file"@[0]);
    assert("schema"@[0] != "preset"@[0]);
    assert("schema"@[0] != "output"@[0]);
    assert("preset"@[0] != "output"@[0]);
    assert("template_loaded"@[0] != "max_concurrency"@[0]);
    let o = plan_settings(r, template)->Object_0;
    json::lemma_field_at(o, 0);
    json::lemma_field_at(o, 1);
    json::lemma_field_at(o, 2);
    json::lemma_field_at(o, 3);
    json::lemma_field_at(o, 4);
    json::lemma_field_at(o, 5);
    json::lemma_field_at(o, 6);
    json::lemma_field_at(o, 7);
    json::lemma_field_at(o, 8);
    json::lemma_field_at(o, 9);
    json::lemma_field_at(o, 10);
    json::lemma_field_at(o, 11);
    json::lemma_field_at(o, 12);
    json::lemma_field_at(o, 13);
    json::lemma_field_at(o, 14);
    json::lemma_field_at(o, 15);
    json::lemma_field_at(o, 16);
}

/// What would be done.
pub open spec fn plan(
    file: Option<Seq<char>>,
    format: InputFormat,
    r: Resolved,
    template: bool,
) -> JsonV {
    JsonV::Object(
        seq![
            ("dry_run"@, JsonV::Bool(true)),
            ("will_read_input"@, JsonV::Bool(false)),
            ("will_call_backend"@, JsonV::Bool(false)),
            (
                "input"@,
                JsonV::Object(
                    seq![
                        ("source"@, JsonV::Text(input_source(file))),
                        ("format"@, JsonV::Text(name_of_input(format))),
                    ],
                ),
            ),
            ("config"@, plan_settings(r, template)),
        ],
    )
}

/// Where the input comes from.
fn source_of_input(file: &Option<String>) -> (r: String)
    ensures
        r@ == input_source(seqs::opt_view(*file)),
{
    match file {
        Some(f) => f.clone(),
        None => "stdin".to_owned(),
    }
}

/// What would be done. Nothing is read for it and nothing is asked.
pub fn dry_run_value(
    file: &Option<String>,
    format: InputFormat,
    cfg: &Resolved,
    template_loaded: bool,
) -> (r: Json)
    ensures
        r@ == plan(seqs::opt_view(*file), format, *cfg, template_loaded),
{
    let source = source_of_input(file);
    let input = ObjectBuilder::new().with("source", json::string(source.as_str())).with(
        "format",
        json::string(input_format_name(format)),
    ).done();
    let settings = ObjectBuilder::new().with(
        "engine",
        json::string(engine_name(cfg.engine)),
    ).with("model", json::text_or_null_of(&cfg.model)).with(
        "backend",
        json::string(backend_name(cfg.backend)),
    ).with("agent", json::string(cfg.agent.as_str())).with(
        "chunker",
        json::string(chunker_name(cfg.chunker)),
    ).with("schema_mode", json::string(cfg.schema_mode.as_str())).with(
        "schema",
        json::text_or_null_of(&cfg.schema),
    ).with("preset", json::text_or_null_of(&cfg.preset)).with(
        "preset_file",
        json::text_or_null_of(&cfg.preset_file),
    ).with("template_loaded", Json::Bool(template_loaded)).with(
        "lang",
        json::text_or_null_of(&cfg.lang),
    ).with("max_rounds", Json::Uint(cfg.max_rounds as u64)).with(
        "merge_strategy",
        json::string(merge_strategy_name(cfg.merge_strategy)),
    ).with("coref", Json::Bool(cfg.coref)).with(
        "max_concurrency",
        Json::Uint(cfg.max_concurrency as u64),
    ).with("relation_gleaning", Json::Uint(cfg.relation_gleaning as u64)).with(
        "output",
        json::string(output_name(cfg.output)),
    ).done();
    let ghost p = plan(seqs::opt_view(*file), format, *cfg, template_loaded)->Object_0;
    assert(input@->Object_0 =~= (p[3].1)->Object_0);
    assert(settings@->Object_0 =~= plan_settings(*cfg, template_loaded)->Object_0);
    let r = ObjectBuilder::new().with("dry_run", Json::Bool(true)).with(
        "will_read_input",
        Json::Bool(false),
    ).with("will_call_backend", Json::Bool(false)).with("input", input).with(
        "config",
        settings,
    ).done();
    assert(r@->Object_0 =~= p);
    r
}

/// A plan in words.
pub open spec fn plan_text(file: Option<Seq<char>>, format: InputFormat, r: Resolved) -> Seq<char> {
    "kg-extract dry-run\n  input: "@ + input_source(file) + "\n  input_format: "@ + name_of_input(
        format,
    ) + "\n  engine: "@ + name_of_engine(r.engine) + "\n  backend: "@ + name_of_backend(r.backend)
        + "\n  agent: "@ + r.agent@ + "\n  output: "@ + name_of_output(r.output)
        + "\n  will_read_input: false\n  will_call_backend: false\n"@
}

/// A plan in words.
pub fn dry_run_text(file: &Option<String>, format: InputFormat, cfg: &Resolved) -> (r: String)
    ensures
        r@ == plan_text(seqs::opt_view(*file), format, *cfg),
{
    let mut s = "kg-extract dry-run\n  input: ".to_owned();
    s.append(source_of_input(file).as_str());
    s.append("\n  input_format: ");
    s.append(input_format_name(format));
    s.append("\n  engine: ");
    s.append(engine_name(cfg.engine));
    s.append("\n  backend: ");
    s.append(backend_name(cfg.backend));
    s.append("\n  agent: ");
    s.append(cfg.agent.as_str());
    s.append("\n  output: ");
    s.append(output_name(cfg.output));
    s.append("\n  will_read_input: false\n  will_call_backend: false\n");
    s
}

} // verus!
