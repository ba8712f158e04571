//! Command-line choices that the library interprets.
use vstd::prelude::*;

verus! {

/// LLM provider backing the TUI.
#[derive(Debug, Clone, Copy, PartialEq, Eq, Structural)]
pub enum Provider {
    Anthropic,
    Llamacpp,
}

/// Named diagnostics presets for common logging workflows.
#[derive(Debug, Clone, Copy, PartialEq, Eq, Structural)]
pub enum DiagnosticsPreset {
    Runtime,
    Session,
    Render,
    Bridge,
    Full,
}

pub open spec fn preset_directives(p: DiagnosticsPreset) -> Seq<char> {
    match p {
        DiagnosticsPreset::Runtime => "info,bridge.lifecycle=debug,bridge.protocol=debug,app.session=debug,app.tool=debug,app.command=debug,app.permission=debug,app.network=debug,app.update=debug"@,
        DiagnosticsPreset::Session => "info,bridge.lifecycle=debug,bridge.protocol=debug,app.session=debug,app.permission=debug,app.command=debug"@,
        DiagnosticsPreset::Render => "info,app.render=trace,app.cache=debug,app.input=debug,app.paste=debug,app.perf=info"@,
        DiagnosticsPreset::Bridge => "info,bridge.lifecycle=debug,bridge.protocol=debug,bridge.sdk=debug,bridge.permission=debug,bridge.mcp=debug"@,
        DiagnosticsPreset::Full => "info,app.render=trace,app.perf=info,bridge.lifecycle=debug,bridge.protocol=debug,bridge.sdk=debug,bridge.permission=debug,bridge.mcp=debug,app.session=debug,app.tool=debug,app.command=debug,app.permission=debug,app.network=debug,app.update=debug,app.cache=debug,app.input=debug,app.paste=debug,app.config=debug,app.auth=debug"@,
    }
}

impl DiagnosticsPreset {
    /// The tracing filter directives of the preset.
    pub fn filter_directives(&self) -> (r: &'static str)
        ensures
            r@ == preset_directives(*self),
    {
        match self {
            DiagnosticsPreset::Runtime => "info,bridge.lifecycle=debug,bridge.protocol=debug,app.session=debug,app.tool=debug,app.command=debug,app.permission=debug,app.network=debug,app.update=debug",
            DiagnosticsPreset::Session => "info,bridge.lifecycle=debug,bridge.protocol=debug,app.session=debug,app.permission=debug,app.command=debug",
            DiagnosticsPreset::Render => "info,app.render=trace,app.cache=debug,app.input=debug,app.paste=debug,app.perf=info",
            DiagnosticsPreset::Bridge => "info,bridge.lifecycle=debug,bridge.protocol=debug,bridge.sdk=debug,bridge.permission=debug,bridge.mcp=debug",
            DiagnosticsPreset::Full => "info,app.render=trace,app.perf=info,bridge.lifecycle=debug,bridge.protocol=debug,bridge.sdk=debug,bridge.permission=debug,bridge.mcp=debug,app.session=debug,app.tool=debug,app.command=debug,app.permission=debug,app.network=debug,app.update=debug,app.cache=debug,app.input=debug,app.paste=debug,app.config=debug,app.auth=debug",
        }
    }
}


/// Directives joined with commas.
pub open spec fn comma_join(ds: Seq<Seq<char>>) -> Seq<char>
    decreases ds.len(),
{
    if ds.len() == 0 {
        Seq::empty()
    } else if ds.len() == 1 {
        ds[0]
    } else {
        comma_join(ds.drop_last()) + ","@ + ds.last()
    }
}

/// The directives of each preset, in order.
pub open spec fn preset_directive_list(p: DiagnosticsPreset) -> Seq<Seq<char>> {
    match p {
        DiagnosticsPreset::Runtime => seq!["info"@, "bridge.lifecycle=debug"@, "bridge.protocol=debug"@, "app.session=debug"@, "app.tool=debug"@, "app.command=debug"@, "app.permission=debug"@, "app.network=debug"@, "app.update=debug"@],
        DiagnosticsPreset::Session => seq!["info"@, "bridge.lifecycle=debug"@, "bridge.protocol=debug"@, "app.session=debug"@, "app.permission=debug"@, "app.command=debug"@],
        DiagnosticsPreset::Render => seq!["info"@, "app.render=trace"@, "app.cache=debug"@, "app.input=debug"@, "app.paste=debug"@, "app.perf=info"@],
        DiagnosticsPreset::Bridge => seq!["info"@, "bridge.lifecycle=debug"@, "bridge.protocol=debug"@, "bridge.sdk=debug"@, "bridge.permission=debug"@, "bridge.mcp=debug"@],
        DiagnosticsPreset::Full => seq!["info"@, "app.render=trace"@, "app.perf=info"@, "bridge.lifecycle=debug"@, "bridge.protocol=debug"@, "bridge.sdk=debug"@, "bridge.permission=debug"@, "bridge.mcp=debug"@, "app.session=debug"@, "app.tool=debug"@, "app.command=debug"@, "app.permission=debug"@, "app.network=debug"@, "app.update=debug"@, "app.cache=debug"@, "app.input=debug"@, "app.paste=debug"@, "app.config=debug"@, "app.auth=debug"@],
    }
}


proof fn lemma_preset_runtime()
    ensures
        preset_directives(DiagnosticsPreset::Runtime) == comma_join(preset_directive_list(DiagnosticsPreset::Runtime)),
        preset_directives(DiagnosticsPreset::Runtime).take(5) == "info,"@,
        forall|i: int|
            0 <= i < preset_directive_list(DiagnosticsPreset::Runtime).len() ==> preset_directive_list(DiagnosticsPreset::Full).contains(
                #[trigger] preset_directive_list(DiagnosticsPreset::Runtime)[i],
            ),
{
    reveal_strlit("info,bridge.lifecycle=debug,bridge.protocol=debug,app.session=debug,app.tool=debug,app.command=debug,app.permission=debug,app.network=debug,app.update=debug");
    reveal_strlit(",");
    reveal_strlit("info,");
    reveal_strlit("info");
    reveal_strlit("bridge.lifecycle=debug");
    reveal_strlit("bridge.protocol=debug");
    reveal_strlit("app.session=debug");
    reveal_strlit("app.tool=debug");
    reveal_strlit("app.command=debug");
    reveal_strlit("app.permission=debug");
    reveal_strlit("app.network=debug");
    reveal_strlit("app.update=debug");
    reveal_strlit("app.render=trace");
    reveal_strlit("app.perf=info");
    reveal_strlit("bridge.sdk=debug");
    reveal_strlit("bridge.permission=debug");
    reveal_strlit("bridge.mcp=debug");
    reveal_strlit("app.cache=debug");
    reveal_strlit("app.input=debug");
    reveal_strlit("app.paste=debug");
    reveal_strlit("app.config=debug");
    reveal_strlit("app.auth=debug");
    reveal_with_fuel(comma_join, 10);
    let l = preset_directive_list(DiagnosticsPreset::Runtime);
    let f = preset_directive_list(DiagnosticsPreset::Full);
    assert(preset_directives(DiagnosticsPreset::Runtime) =~= comma_join(l));
    assert(preset_directives(DiagnosticsPreset::Runtime).take(5) =~= "info,"@);
    assert(f[0] == l[0]);
    assert(f[3] == l[1]);
    assert(f[4] == l[2]);
    assert(f[8] == l[3]);
    assert(f[9] == l[4]);
    assert(f[10] == l[5]);
    assert(f[11] == l[6]);
    assert(f[12] == l[7]);
    assert(f[13] == l[8]);
}

proof fn lemma_preset_session()
    ensures
        preset_directives(DiagnosticsPreset::Session) == comma_join(preset_directive_list(DiagnosticsPreset::Session)),
        preset_directives(DiagnosticsPreset::Session).take(5) == "info,"@,
        forall|i: int|
            0 <= i < preset_directive_list(DiagnosticsPreset::Session).len() ==> preset_directive_list(DiagnosticsPreset::Full).contains(
                #[trigger] preset_directive_list(DiagnosticsPreset::Session)[i],
            ),
{
    reveal_strlit("info,bridge.lifecycle=debug,bridge.protocol=debug,app.session=debug,app.permission=debug,app.command=debug");
    reveal_strlit(",");
    reveal_strlit("info,");
    reveal_strlit("info");
    reveal_strlit("bridge.lifecycle=debug");
    reveal_strlit("bridge.protocol=debug");
    reveal_strlit("app.session=debug");
    reveal_strlit("app.permission=debug");
    reveal_strlit("app.command=debug");
    reveal_strlit("app.render=trace");
    reveal_strlit("app.perf=info");
    reveal_strlit("bridge.sdk=debug");
    reveal_strlit("bridge.permission=debug");
    reveal_strlit("bridge.mcp=debug");
    reveal_strlit("app.tool=debug");
    reveal_strlit("app.network=debug");
    reveal_strlit("app.update=debug");
    reveal_strlit("app.cache=debug");
    reveal_strlit("app.input=debug");
    reveal_strlit("app.paste=debug");
    reveal_strlit("app.config=debug");
    reveal_strlit("app.auth=debug");
    reveal_with_fuel(comma_join, 7);
    let l = preset_directive_list(DiagnosticsPreset::Session);
    let f = preset_directive_list(DiagnosticsPreset::Full);
    assert(preset_directives(DiagnosticsPreset::Session) =~= comma_join(l));
    assert(preset_directives(DiagnosticsPreset::Session).take(5) =~= "info,"@);
    assert(f[0] == l[0]);
    assert(f[3] == l[1]);
    assert(f[4] == l[2]);
    assert(f[8] == l[3]);
    assert(f[11] == l[4]);
    assert(f[10] == l[5]);
}

proof fn lemma_preset_render()
    ensures
        preset_directives(DiagnosticsPreset::Render) == comma_join(preset_directive_list(DiagnosticsPreset::Render)),
        preset_directives(DiagnosticsPreset::Render).take(5) == "info,"@,
        forall|i: int|
            0 <= i < preset_directive_list(DiagnosticsPreset::Render).len() ==> preset_directive_list(DiagnosticsPreset::Full).contains(
                #[trigger] preset_directive_list(DiagnosticsPreset::Render)[i],
            ),
{
    reveal_strlit("info,app.render=trace,app.cache=debug,app.input=debug,app.paste=debug,app.perf=info");
    reveal_strlit(",");
    reveal_strlit("info,");
    reveal_strlit("info");
    reveal_strlit("app.render=trace");
    reveal_strlit("app.cache=debug");
    reveal_strlit("app.input=debug");
    reveal_strlit("app.paste=debug");
    reveal_strlit("app.perf=info");
    reveal_strlit("bridge.lifecycle=debug");
    reveal_strlit("bridge.protocol=debug");
    reveal_strlit("bridge.sdk=debug");
    reveal_strlit("bridge.permission=debug");
    reveal_strlit("bridge.mcp=debug");
    reveal_strlit("app.session=debug");
    reveal_strlit("app.tool=debug");
    reveal_strlit("app.command=debug");
    reveal_strlit("app.permission=debug");
    reveal_strlit("app.network=debug");
    reveal_strlit("app.update=debug");
    reveal_strlit("app.config=debug");
    reveal_strlit("app.auth=debug");
    reveal_with_fuel(comma_join, 7);
    let l = preset_directive_list(DiagnosticsPreset::Render);
    let f = preset_directive_list(DiagnosticsPreset::Full);
    assert(preset_directives(DiagnosticsPreset::Render) =~= comma_join(l));
    assert(preset_directives(DiagnosticsPreset::Render).take(5) =~= "info,"@);
    assert(f[0] == l[0]);
    assert(f[1] == l[1]);
    assert(f[14] == l[2]);
    assert(f[15] == l[3]);
    assert(f[16] == l[4]);
    assert(f[2] == l[5]);
}

proof fn lemma_preset_bridge()
    ensures
        preset_directives(DiagnosticsPreset::Bridge) == comma_join(preset_directive_list(DiagnosticsPreset::Bridge)),
        preset_directives(DiagnosticsPreset::Bridge).take(5) == "info,"@,
        forall|i: int|
            0 <= i < preset_directive_list(DiagnosticsPreset::Bridge).len() ==> preset_directive_list(DiagnosticsPreset::Full).contains(
                #[trigger] preset_directive_list(DiagnosticsPreset::Bridge)[i],
            ),
{
    reveal_strlit("info,bridge.lifecycle=debug,bridge.protocol=debug,bridge.sdk=debug,bridge.permission=debug,bridge.mcp=debug");
    reveal_strlit(",");
    reveal_strlit("info,");
    reveal_strlit("info");
    reveal_strlit("bridge.lifecycle=debug");
    reveal_strlit("bridge.protocol=debug");
    reveal_strlit("bridge.sdk=debug");
    reveal_strlit("bridge.permission=debug");
    reveal_strlit("bridge.mcp=debug");
    reveal_strlit("app.render=trace");
    reveal_strlit("app.perf=info");
    reveal_strlit("app.session=debug");
    reveal_strlit("app.tool=debug");
    reveal_strlit("app.command=debug");
    reveal_strlit("app.permission=debug");
    reveal_strlit("app.network=debug");
    reveal_strlit("app.update=debug");
    reveal_strlit("app.cache=debug");
    reveal_strlit("app.input=debug");
    reveal_strlit("app.paste=debug");
    reveal_strlit("app.config=debug");
    reveal_strlit("app.auth=debug");
    reveal_with_fuel(comma_join, 7);
    let l = preset_directive_list(DiagnosticsPreset::Bridge);
    let f = preset_directive_list(DiagnosticsPreset::Full);
    assert(preset_directives(DiagnosticsPreset::Bridge) =~= comma_join(l));
    assert(preset_directives(DiagnosticsPreset::Bridge).take(5) =~= "info,"@);
    assert(f[0] == l[0]);
    assert(f[3] == l[1]);
    assert(f[4] == l[2]);
    assert(f[5] == l[3]);
    assert(f[6] == l[4]);
    assert(f[7] == l[5]);
}

proof fn lemma_preset_full()
    ensures
        preset_directives(DiagnosticsPreset::Full) == comma_join(preset_directive_list(DiagnosticsPreset::Full)),
        preset_directives(DiagnosticsPreset::Full).take(5) == "info,"@,
        forall|i: int|
            0 <= i < preset_directive_list(DiagnosticsPreset::Full).len() ==> preset_directive_list(DiagnosticsPreset::Full).contains(
                #[trigger] preset_directive_list(DiagnosticsPreset::Full)[i],
            ),
{
    reveal_strlit("info,app.render=trace,app.perf=info,bridge.lifecycle=debug,bridge.protocol=debug,bridge.sdk=debug,bridge.permission=debug,bridge.mcp=debug,app.session=debug,app.tool=debug,app.command=debug,app.permission=debug,app.network=debug,app.update=debug,app.cache=debug,app.input=debug,app.paste=debug,app.config=debug,app.auth=debug");
    reveal_strlit(",");
    reveal_strlit("info,");
    reveal_strlit("info");
    reveal_strlit("app.render=trace");
    reveal_strlit("app.perf=info");
    reveal_strlit("bridge.lifecycle=debug");
    reveal_strlit("bridge.protocol=debug");
    reveal_strlit("bridge.sdk=debug");
    reveal_strlit("bridge.permission=debug");
    reveal_strlit("bridge.mcp=debug");
    reveal_strlit("app.session=debug");
    reveal_strlit("app.tool=debug");
    reveal_strlit("app.command=debug");
    reveal_strlit("app.permission=debug");
    reveal_strlit("app.network=debug");
    reveal_strlit("app.update=debug");
    reveal_strlit("app.cache=debug");
    reveal_strlit("app.input=debug");
    reveal_strlit("app.paste=debug");
    reveal_strlit("app.config=debug");
    reveal_strlit("app.auth=debug");
    reveal_with_fuel(comma_join, 20);
    let l = preset_directive_list(DiagnosticsPreset::Full);
    let f = preset_directive_list(DiagnosticsPreset::Full);
    assert(preset_directives(DiagnosticsPreset::Full) =~= comma_join(l));
    assert(preset_directives(DiagnosticsPreset::Full).take(5) =~= "info,"@);
    assert(f[0] == l[0]);
    assert(f[1] == l[1]);
    assert(f[2] == l[2]);
    assert(f[3] == l[3]);
    assert(f[4] == l[4]);
    assert(f[5] == l[5]);
    assert(f[6] == l[6]);
    assert(f[7] == l[7]);
    assert(f[8] == l[8]);
    assert(f[9] == l[9]);
    assert(f[10] == l[10]);
    assert(f[11] == l[11]);
    assert(f[12] == l[12]);
    assert(f[13] == l[13]);
    assert(f[14] == l[14]);
    assert(f[15] == l[15]);
    assert(f[16] == l[16]);
    assert(f[17] == l[17]);
    assert(f[18] == l[18]);
}

/// Every preset's filter is its directives joined with commas, starts with
/// `info,`, and uses only directives of the `Full` preset.
pub proof fn law_presets_within_full(p: DiagnosticsPreset)
    ensures
        preset_directives(p) == comma_join(preset_directive_list(p)),
        preset_directives(p).take(5) == "info,"@,
        forall|i: int|
            0 <= i < preset_directive_list(p).len() ==> preset_directive_list(DiagnosticsPreset::Full).contains(
                #[trigger] preset_directive_list(p)[i],
            ),
{
    match p {
        DiagnosticsPreset::Runtime => lemma_preset_runtime(),
        DiagnosticsPreset::Session => lemma_preset_session(),
        DiagnosticsPreset::Render => lemma_preset_render(),
        DiagnosticsPreset::Bridge => lemma_preset_bridge(),
        DiagnosticsPreset::Full => lemma_preset_full(),
    }
}

} // verus!
