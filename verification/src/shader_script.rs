//! Reader for Quake III shader scripts (`*.shader`).
//!
//! A script is a list of entries `name { ... }`; inside an entry,
//! `{ ... }` blocks are the stages.  The reader keeps, for each entry, the
//! stages' texture maps, blend functions and texture-coordinate modifiers,
//! and the entry's surface light.  Numeric operands (scroll and scale
//! rates, rotation speed, light value) are kept as the words written in the
//! script, every occurrence in order: which of them reads as a number is
//! decided where the numbers are used, and the last one that does wins.
use vstd::prelude::*;
use crate::text::{
    chars_of, count_char, count_in_range, is_ws, push_char, range_eq, range_starts_with,
    replace_all, replace_in_range, split_ws, split_ws_ranges, starts_with, string_of, trim,
    trim_range, pieces,
};

verus! {

broadcast use vstd::string::group_string_axioms;

/// How a stage is blended over what is below it.
#[derive(Clone, Copy, Debug, PartialEq, Eq, Structural)]
pub enum BlendMode {
    NoBlend,
    Blend,
    Add,
    Filter,
    Multiply,
    Modulate,
}

pub struct ShaderStage {
    pub texture_path: String,
    pub blend_mode: BlendMode,
    pub glow: bool,
    pub glow_intensity_percent: u32,
    /// Operand words of each `tcMod scroll x y`, in order.
    pub scroll: Vec<(String, String)>,
    /// Operand words of each `tcMod scale x y`, in order.
    pub scale: Vec<(String, String)>,
    /// Operand word of each `tcMod rotate speed`, in order.
    pub rotate: Vec<String>,
}

pub struct TileShader {
    pub name: String,
    pub base_texture: String,
    pub stages: Vec<ShaderStage>,
    /// Operand word of each `q3map_surfacelight value`, in order.
    pub surface_light: Vec<String>,
    pub cull_disable: bool,
}

pub struct StageView {
    pub texture_path: Seq<char>,
    pub blend_mode: BlendMode,
    pub glow: bool,
    pub glow_intensity_percent: u32,
    pub scroll: Seq<(Seq<char>, Seq<char>)>,
    pub scale: Seq<(Seq<char>, Seq<char>)>,
    pub rotate: Seq<Seq<char>>,
}

pub struct ShaderView {
    pub name: Seq<char>,
    pub base_texture: Seq<char>,
    pub stages: Seq<StageView>,
    pub surface_light: Seq<Seq<char>>,
    pub cull_disable: bool,
}

pub open spec fn pairs_view(v: Seq<(String, String)>) -> Seq<(Seq<char>, Seq<char>)> {
    v.map_values(|p: (String, String)| (p.0@, p.1@))
}

pub open spec fn words_view(v: Seq<String>) -> Seq<Seq<char>> {
    v.map_values(|w: String| w@)
}

impl View for ShaderStage {
    type V = StageView;

    open spec fn view(&self) -> StageView {
        StageView {
            texture_path: self.texture_path@,
            blend_mode: self.blend_mode,
            glow: self.glow,
            glow_intensity_percent: self.glow_intensity_percent,
            scroll: pairs_view(self.scroll@),
            scale: pairs_view(self.scale@),
            rotate: words_view(self.rotate@),
        }
    }
}

pub open spec fn stages_view(v: Seq<ShaderStage>) -> Seq<StageView> {
    v.map_values(|s: ShaderStage| s@)
}

impl View for TileShader {
    type V = ShaderView;

    open spec fn view(&self) -> ShaderView {
        ShaderView {
            name: self.name@,
            base_texture: self.base_texture@,
            stages: stages_view(self.stages@),
            surface_light: words_view(self.surface_light@),
            cull_disable: self.cull_disable,
        }
    }
}

pub open spec fn shaders_view(v: Seq<TileShader>) -> Seq<ShaderView> {
    v.map_values(|s: TileShader| s@)
}

/// The upper-case form of a word, as `str::to_uppercase` gives it.
pub uninterp spec fn spec_to_uppercase(s: Seq<char>) -> Seq<char>;

/// Upper-cases the word `v[a..b]` with `str::to_uppercase`; the result is
/// `spec_to_uppercase` of the word, which this crate does not spell out.
#[verifier::external_body]
fn uppercase_of(v: &Vec<char>, a: usize, b: usize) -> (r: Vec<char>)
    requires
        a <= b <= v@.len(),
    ensures
        r@ == spec_to_uppercase(v@.subrange(a as int, b as int)),
{
    let s: String = v[a..b].iter().collect();
    s.to_uppercase().chars().collect()
}

/// A fresh stage: no texture, no blending, no glow, no modifiers.
pub open spec fn default_stage() -> StageView {
    StageView {
        texture_path: Seq::empty(),
        blend_mode: BlendMode::NoBlend,
        glow: false,
        glow_intensity_percent: 0,
        scroll: Seq::empty(),
        scale: Seq::empty(),
        rotate: Seq::empty(),
    }
}

/// A fresh entry with the given name and nothing else.
pub open spec fn new_shader(name: Seq<char>) -> ShaderView {
    ShaderView {
        name,
        base_texture: Seq::empty(),
        stages: Seq::empty(),
        surface_light: Seq::empty(),
        cull_disable: false,
    }
}

/// Where the reader is in a script, and the entries read so far.
pub struct ScanState {
    pub level: int,
    pub shader: Option<ShaderView>,
    pub stage: Option<StageView>,
    pub name: Seq<char>,
    pub table: Seq<ShaderView>,
}

/// Whether the table has an entry called `name` (it never holds two
/// entries of one name).
pub open spec fn has_name(table: Seq<ShaderView>, name: Seq<char>) -> bool {
    exists|i: int| 0 <= i < table.len() && #[trigger] table[i].name == name
}

/// Adds an entry to the table, in place of the entry of the same name if
/// there is one.
pub open spec fn table_insert(table: Seq<ShaderView>, sh: ShaderView) -> Seq<ShaderView> {
    if has_name(table, sh.name) {
        let i = choose|i: int| 0 <= i < table.len() && #[trigger] table[i].name == sh.name;
        table.update(i, sh)
    } else {
        table.push(sh)
    }
}

pub open spec fn names_unique(table: Seq<ShaderView>) -> bool {
    forall|i: int, j: int|
        0 <= i < table.len() && 0 <= j < table.len() && i != j ==> #[trigger] table[i].name
            != #[trigger] table[j].name
}

/// A texture path under `textures/` lives in the resource directory.
pub open spec fn resource_path(tex: Seq<char>) -> Seq<char> {
    if starts_with(tex, "textures/"@) {
        "q3-resources/"@ + tex
    } else {
        tex
    }
}

/// The effect of `blendFunc` with the given upper-cased first operand and
/// optional second operand.
pub open spec fn blend_update(sg: StageView, upper: Seq<char>, second: Option<Seq<char>>) -> StageView {
    if upper == "ADD"@ {
        StageView { blend_mode: BlendMode::Add, ..sg }
    } else if upper == "BLEND"@ {
        StageView { blend_mode: BlendMode::Blend, ..sg }
    } else if upper == "FILTER"@ {
        StageView { blend_mode: BlendMode::Filter, ..sg }
    } else if upper == "GL_ONE"@ && second == Some("GL_ONE"@) {
        StageView { blend_mode: BlendMode::Add, glow: true, glow_intensity_percent: 80, ..sg }
    } else {
        sg
    }
}

/// Law of `blendFunc`: each named operand sets its own blend mode (`ADD`
/// adds, `BLEND` blends, `FILTER` filters, `GL_ONE GL_ONE` adds with an 80%
/// glow), whatever the case it is written in; any other operand leaves the
/// stage as it was; the texture and the modifiers are never touched.
pub proof fn lemma_blend_func_modes(sg: StageView, word: Seq<char>, second: Option<Seq<char>>)
    ensures
        ({
            let r = blend_update(sg, spec_to_uppercase(word), second);
            &&& spec_to_uppercase(word) == "ADD"@ ==> r.blend_mode == BlendMode::Add && r.glow == sg.glow
            &&& spec_to_uppercase(word) == "BLEND"@ ==> r.blend_mode == BlendMode::Blend && r.glow == sg.glow
            &&& spec_to_uppercase(word) == "FILTER"@ ==> r.blend_mode == BlendMode::Filter && r.glow == sg.glow
            &&& spec_to_uppercase(word) == "GL_ONE"@ && second == Some("GL_ONE"@) ==> r.blend_mode == BlendMode::Add
                && r.glow && r.glow_intensity_percent == 80
            &&& (spec_to_uppercase(word) != "ADD"@ && spec_to_uppercase(word) != "BLEND"@ && spec_to_uppercase(word)
                != "FILTER"@ && !(spec_to_uppercase(word) == "GL_ONE"@ && second == Some("GL_ONE"@))) ==> r == sg
            &&& r.texture_path == sg.texture_path && r.scroll == sg.scroll && r.scale == sg.scale && r.rotate
                == sg.rotate
        }),
{
    reveal_strlit("ADD");
    reveal_strlit("BLEND");
    reveal_strlit("FILTER");
    reveal_strlit("GL_ONE");
    assert("ADD"@.len() == 3 && "BLEND"@.len() == 5 && "FILTER"@.len() == 6 && "GL_ONE"@.len() == 6);
    assert("FILTER"@[0] != "GL_ONE"@[0]);
    assert("ADD"@ != "BLEND"@);
    assert("ADD"@ != "FILTER"@);
    assert("ADD"@ != "GL_ONE"@);
    assert("BLEND"@ != "FILTER"@);
    assert("BLEND"@ != "GL_ONE"@);
    assert("FILTER"@ != "GL_ONE"@);
}

/// Law of a `blendFunc` line in a stage: its first operand, upper-cased,
/// chooses the blend mode as `lemma_blend_func_modes` says.
pub proof fn lemma_blend_func_line(sg: StageView, parts: Seq<Seq<char>>)
    requires
        parts.len() > 1,
        parts[0] == "blendFunc"@,
    ensures
        spec_to_uppercase(parts[1]) == "BLEND"@ ==> stage_directive(sg, parts).blend_mode == BlendMode::Blend,
        spec_to_uppercase(parts[1]) == "ADD"@ ==> stage_directive(sg, parts).blend_mode == BlendMode::Add,
        spec_to_uppercase(parts[1]) == "FILTER"@ ==> stage_directive(sg, parts).blend_mode == BlendMode::Filter,
        stage_directive(sg, parts).texture_path == sg.texture_path,
{
    reveal_strlit("blendFunc");
    reveal_strlit("map");
    reveal_strlit("clampmap");
    assert("blendFunc"@.len() == 9 && "map"@.len() == 3 && "clampmap"@.len() == 8);
    assert(parts[0] != "map"@);
    assert(parts[0] != "clampmap"@);
    lemma_blend_func_modes(sg, parts[1], if parts.len() > 2 { Some(parts[2]) } else { None });
}

/// The effect of one directive line, split into words, on the current stage.
pub open spec fn stage_directive(sg: StageView, parts: Seq<Seq<char>>) -> StageView {
    let cmd = parts[0];
    if cmd == "map"@ && parts.len() > 1 {
        let tex = replace_all(parts[1], ".tga"@, ".png"@);
        if !starts_with(tex, "$"@) && !starts_with(tex, "*"@) && sg.texture_path.len() == 0 {
            StageView { texture_path: resource_path(tex), ..sg }
        } else {
            sg
        }
    } else if cmd == "clampmap"@ && parts.len() > 1 {
        StageView { texture_path: resource_path(replace_all(parts[1], ".tga"@, ".png"@)), ..sg }
    } else if cmd == "blendFunc"@ {
        if parts.len() > 1 {
            blend_update(
                sg,
                spec_to_uppercase(parts[1]),
                if parts.len() > 2 {
                    Some(parts[2])
                } else {
                    None
                },
            )
        } else {
            sg
        }
    } else if cmd == "tcMod"@ && parts.len() > 2 {
        if parts[1] == "scroll"@ && parts.len() > 3 {
            StageView { scroll: sg.scroll.push((parts[2], parts[3])), ..sg }
        } else if parts[1] == "scale"@ && parts.len() > 3 {
            StageView { scale: sg.scale.push((parts[2], parts[3])), ..sg }
        } else if parts[1] == "rotate"@ {
            StageView { rotate: sg.rotate.push(parts[2]), ..sg }
        } else {
            sg
        }
    } else {
        sg
    }
}

/// Opening braces raise the nesting level; reaching level 1 with no entry
/// open starts an entry named by the last name line, reaching level 2
/// starts a stage.
pub open spec fn open_phase(st: ScanState, t: Seq<char>) -> ScanState {
    let opens = count_char(t, '{');
    if opens > 0 {
        let level = st.level + opens;
        if level == 1 && st.shader is None {
            ScanState { level, shader: Some(new_shader(st.name)), ..st }
        } else if level == 2 {
            ScanState { level, stage: Some(default_stage()), ..st }
        } else {
            ScanState { level, ..st }
        }
    } else {
        st
    }
}

/// Closing braces: at level 2 the current stage is finished (and joins the
/// open entry, if any); the level drops by the number of braces; back at
/// level 0 the open entry, if any, goes into the table.  `None` when the
/// level would drop below zero.
pub open spec fn close_phase(st: ScanState, t: Seq<char>) -> Option<ScanState> {
    let closes = count_char(t, '}');
    if closes > 0 {
        let st1 = if st.level == 2 {
            ScanState {
                stage: None,
                shader: match (st.stage, st.shader) {
                    (Some(sg), Some(sh)) => Some(ShaderView { stages: sh.stages.push(sg), ..sh }),
                    _ => st.shader,
                },
                ..st
            }
        } else {
            st
        };
        if st1.level < closes {
            None
        } else if st1.level - closes == 0 {
            match st1.shader {
                Some(sh) => Some(
                    ScanState {
                        level: 0,
                        shader: None,
                        table: table_insert(st1.table, sh),
                        ..st1
                    },
                ),
                None => Some(ScanState { level: 0, ..st1 }),
            }
        } else {
            Some(ScanState { level: st1.level - closes, ..st1 })
        }
    } else {
        Some(st)
    }
}

/// A line at level 0 that does not start with a brace names the next entry.
pub open spec fn name_phase(st: ScanState, t: Seq<char>) -> ScanState {
    if !starts_with(t, "{"@) && !starts_with(t, "}"@) && st.level == 0 {
        ScanState { name: t, ..st }
    } else {
        st
    }
}

/// `q3map_surfacelight value` inside an entry records the value word.
pub open spec fn light_phase(st: ScanState, t: Seq<char>) -> ScanState {
    if st.level == 1 && st.shader is Some && starts_with(t, "q3map_surfacelight "@) && split_ws(t).len()
        > 1 {
        let sh = st.shader->0;
        ScanState {
            shader: Some(ShaderView { surface_light: sh.surface_light.push(split_ws(t)[1]), ..sh }),
            ..st
        }
    } else {
        st
    }
}

/// Inside a stage, a line is a stage directive.
pub open spec fn stage_phase(st: ScanState, t: Seq<char>) -> ScanState {
    if st.level == 2 && st.stage is Some && split_ws(t).len() > 0 {
        ScanState { stage: Some(stage_directive(st.stage->0, split_ws(t))), ..st }
    } else {
        st
    }
}

/// One line of a script.  Blank lines and `//` comment lines change
/// nothing.
pub open spec fn step_line(st: ScanState, raw: Seq<char>) -> Option<ScanState> {
    let t = trim(raw);
    if t.len() == 0 || starts_with(t, "//"@) {
        Some(st)
    } else {
        match close_phase(open_phase(st, t), t) {
            Some(s2) => Some(stage_phase(light_phase(name_phase(s2, t), t), t)),
            None => None,
        }
    }
}

/// Index of the first line break of `s`, or its length.
pub open spec fn first_newline(s: Seq<char>) -> nat
    decreases s.len(),
{
    if s.len() == 0 || s[0] == '\n' {
        0
    } else {
        1 + first_newline(s.drop_first())
    }
}

/// The lines of `s`: the pieces between line breaks, the last one
/// possibly empty.
pub open spec fn lines_of(s: Seq<char>) -> Seq<Seq<char>>
    decreases s.len(),
{
    let k = first_newline(s);
    if k < s.len() {
        seq![s.take(k as int)] + lines_of(s.skip(k + 1 as int))
    } else {
        seq![s]
    }
}

pub open spec fn run_lines(st: ScanState, lines: Seq<Seq<char>>) -> Option<ScanState>
    decreases lines.len(),
{
    if lines.len() == 0 {
        Some(st)
    } else {
        match step_line(st, lines[0]) {
            Some(s2) => run_lines(s2, lines.drop_first()),
            None => None,
        }
    }
}

pub open spec fn initial_scan(table: Seq<ShaderView>) -> ScanState {
    ScanState { level: 0, shader: None, stage: None, name: Seq::empty(), table }
}

/// Reading the script `text` with the entries of `table` already known;
/// `None` when a closing brace has no opening brace to match.
pub open spec fn read_script(table: Seq<ShaderView>, text: Seq<char>) -> Option<ScanState> {
    run_lines(initial_scan(table), lines_of(text))
}

/// Nesting level after one line, `None` when a closing brace has nothing
/// to close.
pub open spec fn level_step(level: int, raw: Seq<char>) -> Option<int> {
    let t = trim(raw);
    if t.len() == 0 || starts_with(t, "//"@) {
        Some(level)
    } else {
        let opened = level + count_char(t, '{');
        let closes = count_char(t, '}');
        if closes > 0 {
            if opened < closes {
                None
            } else {
                Some(opened - closes)
            }
        } else {
            Some(opened)
        }
    }
}

pub open spec fn level_after(level: int, lines: Seq<Seq<char>>) -> Option<int>
    decreases lines.len(),
{
    if lines.len() == 0 {
        Some(level)
    } else {
        match level_step(level, lines[0]) {
            Some(l2) => level_after(l2, lines.drop_first()),
            None => None,
        }
    }
}

/// Every closing brace of the script has an opening brace to match
/// (lines that are blank or comments aside).
pub open spec fn braces_ok(text: Seq<char>) -> bool {
    level_after(0, lines_of(text)) is Some
}

proof fn lemma_step_level(st: ScanState, raw: Seq<char>)
    ensures
        step_line(st, raw) is Some <==> level_step(st.level, raw) is Some,
        step_line(st, raw) is Some ==> step_line(st, raw)->0.level == level_step(st.level, raw)->0,
{
}

proof fn lemma_run_level(st: ScanState, lines: Seq<Seq<char>>)
    ensures
        run_lines(st, lines) is Some <==> level_after(st.level, lines) is Some,
    decreases lines.len(),
{
    if lines.len() > 0 {
        lemma_step_level(st, lines[0]);
        if step_line(st, lines[0]) is Some {
            lemma_run_level(step_line(st, lines[0])->0, lines.drop_first());
        }
    }
}

proof fn lemma_insert_unique(table: Seq<ShaderView>, sh: ShaderView)
    requires
        names_unique(table),
    ensures
        names_unique(table_insert(table, sh)),
        has_name(table_insert(table, sh), sh.name),
{
    if has_name(table, sh.name) {
        let i = choose|i: int| 0 <= i < table.len() && #[trigger] table[i].name == sh.name;
        let t2 = table.update(i, sh);
        assert(t2[i].name == sh.name);
        assert forall|a: int, b: int|
            0 <= a < t2.len() && 0 <= b < t2.len() && a != b implies #[trigger] t2[a].name
            != #[trigger] t2[b].name by {
            if a != i && b != i {
                assert(table[a].name != table[b].name);
            } else if a == i {
                assert(table[i].name != table[b].name);
            } else {
                assert(table[a].name != table[i].name);
            }
        }
    } else {
        let t2 = table.push(sh);
        assert(t2[table.len() as int].name == sh.name);
        assert forall|a: int, b: int|
            0 <= a < t2.len() && 0 <= b < t2.len() && a != b implies #[trigger] t2[a].name
            != #[trigger] t2[b].name by {
            if a < table.len() && b < table.len() {
                assert(table[a].name != table[b].name);
            } else if a < table.len() {
                assert(table[a].name == t2[a].name);
            } else {
                assert(table[b].name == t2[b].name);
            }
        }
    }
}

proof fn lemma_lines_step(s: Seq<char>, k: nat)
    requires
        k == first_newline(s),
    ensures
        k <= s.len(),
        forall|q: int| 0 <= q < k ==> s[q] != '\n',
        k < s.len() ==> s[k as int] == '\n',
    decreases s.len(),
{
    if s.len() > 0 && s[0] != '\n' {
        lemma_lines_step(s.drop_first(), first_newline(s.drop_first()));
        assert forall|q: int| 0 <= q < k implies s[q] != '\n' by {
            if q > 0 {
                assert(s.drop_first()[q - 1] == s[q]);
            }
        }
    }
}

struct Scan {
    level: usize,
    shader: Option<TileShader>,
    stage: Option<ShaderStage>,
    name: String,
}

spec fn opt_shader_view(o: Option<TileShader>) -> Option<ShaderView> {
    match o {
        Some(s) => Some(s@),
        None => None,
    }
}

spec fn opt_stage_view(o: Option<ShaderStage>) -> Option<StageView> {
    match o {
        Some(s) => Some(s@),
        None => None,
    }
}

spec fn scan_view(sc: Scan, table: Seq<ShaderView>) -> ScanState {
    ScanState {
        level: sc.level as int,
        shader: opt_shader_view(sc.shader),
        stage: opt_stage_view(sc.stage),
        name: sc.name@,
        table,
    }
}

fn fresh_stage() -> (sg: ShaderStage)
    ensures
        sg@ == default_stage(),
{
    let sg = ShaderStage {
        texture_path: String::new(),
        blend_mode: BlendMode::NoBlend,
        glow: false,
        glow_intensity_percent: 0,
        scroll: Vec::new(),
        scale: Vec::new(),
        rotate: Vec::new(),
    };
    assert(pairs_view(sg.scroll@) =~= Seq::empty());
    assert(pairs_view(sg.scale@) =~= Seq::empty());
    assert(words_view(sg.rotate@) =~= Seq::empty());
    sg
}

/// Applies `blendFunc` to a stage, given its first operand already
/// upper-cased and its second operand, if any.
pub fn apply_blend_func(stage: &mut ShaderStage, upper: &Vec<char>, second: Option<Vec<char>>)
    ensures
        upper@ == "ADD"@ ==> final(stage).blend_mode == BlendMode::Add,
        upper@ == "BLEND"@ ==> final(stage).blend_mode == BlendMode::Blend,
        upper@ == "FILTER"@ ==> final(stage).blend_mode == BlendMode::Filter,
        final(stage)@ == blend_update(
            old(stage)@,
            upper@,
            match second {
                Some(w) => Some(w@),
                None => None,
            },
        ),
{
    proof {
        reveal_strlit("ADD");
        reveal_strlit("BLEND");
        reveal_strlit("FILTER");
        reveal_strlit("GL_ONE");
    }
    let add = chars_of("ADD");
    let blend = chars_of("BLEND");
    let filter = chars_of("FILTER");
    let gl_one = chars_of("GL_ONE");
    if range_eq(upper, 0, upper.len(), &add) {
        assert(upper@.subrange(0, upper@.len() as int) =~= upper@);
        stage.blend_mode = BlendMode::Add;
    } else if range_eq(upper, 0, upper.len(), &blend) {
        assert(upper@.subrange(0, upper@.len() as int) =~= upper@);
        stage.blend_mode = BlendMode::Blend;
    } else if range_eq(upper, 0, upper.len(), &filter) {
        assert(upper@.subrange(0, upper@.len() as int) =~= upper@);
        stage.blend_mode = BlendMode::Filter;
    } else {
        assert(upper@.subrange(0, upper@.len() as int) =~= upper@);
        if range_eq(upper, 0, upper.len(), &gl_one) {
            match second {
                Some(w) => {
                    let same = range_eq(&w, 0, w.len(), &gl_one);
                    assert(w@.subrange(0, w@.len() as int) =~= w@);
                    if same {
                        stage.blend_mode = BlendMode::Add;
                        stage.glow = true;
                        stage.glow_intensity_percent = 80;
                    }
                },
                None => {},
            }
        }
    }
}

/// `v[a..b]` is the trimmed, non-blank, non-comment line `t`.
spec fn line_ok(v: Seq<char>, a: usize, b: usize, t: Seq<char>) -> bool {
    &&& a <= b <= v.len()
    &&& v.subrange(a as int, b as int) == t
    &&& t.len() > 0
}

fn open_line(sc: &mut Scan, v: &Vec<char>, a: usize, b: usize, Ghost(t): Ghost<Seq<char>>, Ghost(table): Ghost<Seq<ShaderView>>)
    requires
        line_ok(v@, a, b, t),
        old(sc).level <= a,
    ensures
        scan_view(*final(sc), table) == open_phase(scan_view(*old(sc), table), t),
        final(sc).level <= b,
{
    let opens = count_in_range(v, a, b, '{');
    if opens > 0 {
        sc.level = sc.level + opens;
        if sc.level == 1 && sc.shader.is_none() {
            let sh = TileShader {
                name: sc.name.clone(),
                base_texture: String::new(),
                stages: Vec::new(),
                surface_light: Vec::new(),
                cull_disable: false,
            };
            assert(stages_view(sh.stages@) =~= Seq::empty());
            assert(words_view(sh.surface_light@) =~= Seq::empty());
            sc.shader = Some(sh);
        } else if sc.level == 2 {
            sc.stage = Some(fresh_stage());
        }
    }
}

fn name_line(sc: &mut Scan, v: &Vec<char>, a: usize, b: usize, Ghost(t): Ghost<Seq<char>>, Ghost(table): Ghost<Seq<ShaderView>>)
    requires
        line_ok(v@, a, b, t),
    ensures
        scan_view(*final(sc), table) == name_phase(scan_view(*old(sc), table), t),
        final(sc).level == old(sc).level,
{
    let ob = chars_of("{");
    let cb = chars_of("}");
    if !range_starts_with(v, a, b, &ob) && !range_starts_with(v, a, b, &cb) && sc.level == 0 {
        sc.name = string_of(v, a, b);
    }
}

fn light_line(sc: &mut Scan, v: &Vec<char>, a: usize, b: usize, Ghost(t): Ghost<Seq<char>>, Ghost(table): Ghost<Seq<ShaderView>>)
    requires
        line_ok(v@, a, b, t),
    ensures
        scan_view(*final(sc), table) == light_phase(scan_view(*old(sc), table), t),
        final(sc).level == old(sc).level,
{
    if sc.level == 1 && sc.shader.is_some() {
        let key = chars_of("q3map_surfacelight ");
        if range_starts_with(v, a, b, &key) {
            let parts = split_ws_ranges(v, a, b);
            if parts.len() > 1 {
                let (p, q) = parts[1];
                assert(pieces(v@, parts@)[1] == v@.subrange(p as int, q as int));
                let word = string_of(v, p, q);
                let mut sh = sc.shader.take().unwrap();
                let ghost before = sh.surface_light@;
                sh.surface_light.push(word);
                assert(words_view(sh.surface_light@) =~= words_view(before).push(split_ws(t)[1]));
                sc.shader = Some(sh);
            }
        }
    }
}

/// The texture path written for a `map`/`clampmap` operand, already with
/// `.tga` replaced by `.png`.
fn texture_string(tex: &Vec<char>) -> (s: String)
    ensures
        s@ == resource_path(tex@),
{
    let pre = chars_of("textures/");
    let under = range_starts_with(tex, 0, tex.len(), &pre);
    assert(tex@.subrange(0, tex@.len() as int) =~= tex@);
    if under {
        let mut s = "q3-resources/".to_owned();
        let ghost base = s@;
        let mut i: usize = 0;
        while i < tex.len()
            invariant
                i <= tex@.len(),
                base == "q3-resources/"@,
                s@ == base + tex@.take(i as int),
            decreases tex@.len() - i,
        {
            push_char(&mut s, tex[i]);
            i += 1;
            assert(s@ =~= base + tex@.take(i as int));
        }
        assert(tex@.take(tex@.len() as int) =~= tex@);
        s
    } else {
        string_of(tex, 0, tex.len())
    }
}

fn stage_line(sc: &mut Scan, v: &Vec<char>, a: usize, b: usize, Ghost(t): Ghost<Seq<char>>, Ghost(table): Ghost<Seq<ShaderView>>)
    requires
        line_ok(v@, a, b, t),
    ensures
        scan_view(*final(sc), table) == stage_phase(scan_view(*old(sc), table), t),
        final(sc).level == old(sc).level,
{
    if sc.level != 2 || sc.stage.is_none() {
        return;
    }
    let parts = split_ws_ranges(v, a, b);
    if parts.len() == 0 {
        return;
    }
    let ghost ps = split_ws(t);
    assert(pieces(v@, parts@) == ps);
    let mut sg = sc.stage.take().unwrap();
    let ghost sv = sg@;
    let (c0, c1) = parts[0];
    assert(ps[0] == v@.subrange(c0 as int, c1 as int));
    let n = parts.len();
    if n > 1 {
        assert(ps[1] == v@.subrange(parts@[1].0 as int, parts@[1].1 as int));
    }
    if n > 2 {
        assert(ps[2] == v@.subrange(parts@[2].0 as int, parts@[2].1 as int));
    }
    if n > 3 {
        assert(ps[3] == v@.subrange(parts@[3].0 as int, parts@[3].1 as int));
    }
    let tga = chars_of(".tga");
    let png = chars_of(".png");
    proof {
        reveal_strlit(".tga");
    }
    if range_eq(v, c0, c1, &chars_of("map")) && n > 1 {
        let (p, q) = parts[1];
        let tex = replace_in_range(v, p, q, &tga, &png);
        let dollar = range_starts_with(&tex, 0, tex.len(), &chars_of("$"));
        let star = range_starts_with(&tex, 0, tex.len(), &chars_of("*"));
        assert(tex@.subrange(0, tex@.len() as int) =~= tex@);
        if !dollar && !star && sg.texture_path.as_str().is_empty() {
            sg.texture_path = texture_string(&tex);
        }
    } else if range_eq(v, c0, c1, &chars_of("clampmap")) && n > 1 {
        let (p, q) = parts[1];
        let tex = replace_in_range(v, p, q, &tga, &png);
        sg.texture_path = texture_string(&tex);
    } else if range_eq(v, c0, c1, &chars_of("blendFunc")) {
        if n > 1 {
            let (p, q) = parts[1];
            let upper = uppercase_of(v, p, q);
            let second = if n > 2 {
                let (p2, q2) = parts[2];
                let w = v_slice(v, p2, q2);
                Some(w)
            } else {
                None
            };
            apply_blend_func(&mut sg, &upper, second);
        }
    } else if range_eq(v, c0, c1, &chars_of("tcMod")) && n > 2 {
        let (d0, d1) = parts[1];
        let (p2, q2) = parts[2];
        if range_eq(v, d0, d1, &chars_of("scroll")) && n > 3 {
            let (p3, q3) = parts[3];
            let ghost before = sg.scroll@;
            sg.scroll.push((string_of(v, p2, q2), string_of(v, p3, q3)));
            assert(pairs_view(sg.scroll@) =~= pairs_view(before).push((ps[2], ps[3])));
        } else if range_eq(v, d0, d1, &chars_of("scale")) && n > 3 {
            let (p3, q3) = parts[3];
            let ghost before = sg.scale@;
            sg.scale.push((string_of(v, p2, q2), string_of(v, p3, q3)));
            assert(pairs_view(sg.scale@) =~= pairs_view(before).push((ps[2], ps[3])));
        } else if range_eq(v, d0, d1, &chars_of("rotate")) {
            let ghost before = sg.rotate@;
            sg.rotate.push(string_of(v, p2, q2));
            assert(words_view(sg.rotate@) =~= words_view(before).push(ps[2]));
        }
    }
    sc.stage = Some(sg);
}

/// A copy of `v[a..b]`.
fn v_slice(v: &Vec<char>, a: usize, b: usize) -> (w: Vec<char>)
    requires
        a <= b <= v@.len(),
    ensures
        w@ == v@.subrange(a as int, b as int),
{
    let mut w: Vec<char> = Vec::new();
    let mut i = a;
    while i < b
        invariant
            a <= i <= b <= v@.len(),
            w@ == v@.subrange(a as int, i as int),
        decreases b - i,
    {
        w.push(v[i]);
        i += 1;
        assert(w@ =~= v@.subrange(a as int, i as int));
    }
    w
}

/// Reader of shader scripts and the table of entries read so far, one per
/// name.
pub struct Q3ShaderParser {
    shaders: Vec<TileShader>,
}

impl View for Q3ShaderParser {
    type V = Seq<ShaderView>;

    closed spec fn view(&self) -> Seq<ShaderView> {
        shaders_view(self.shaders@)
    }
}

impl Q3ShaderParser {
    /// No two entries share a name.
    pub closed spec fn wf(&self) -> bool {
        names_unique(self@)
    }

    pub fn new() -> (p: Self)
        ensures
            p@ == Seq::<ShaderView>::empty(),
            p.wf(),
    {
        let p = Q3ShaderParser { shaders: Vec::new() };
        assert(p@ =~= Seq::<ShaderView>::empty());
        p
    }

    fn insert_shader(&mut self, sh: TileShader)
        requires
            old(self).wf(),
        ensures
            final(self)@ == table_insert(old(self)@, sh@),
            final(self).wf(),
    {
        let ghost t = self@;
        proof {
            lemma_insert_unique(t, sh@);
        }
        let target = chars_of(sh.name.as_str());
        let mut i: usize = 0;
        while i < self.shaders.len()
            invariant
                t == self@,
                t == old(self)@,
                names_unique(t),
                i <= self.shaders@.len(),
                target@ == sh.name@,
                forall|k: int| 0 <= k < i ==> (#[trigger] t[k]).name != sh.name@,
            decreases self.shaders@.len() - i,
        {
            let here = chars_of(self.shaders[i].name.as_str());
            assert(t[i as int].name == self.shaders@[i as int].name@);
            if range_eq(&here, 0, here.len(), &target) {
                assert(here@.subrange(0, here@.len() as int) =~= here@);
                proof {
                    assert(has_name(t, sh.name@));
                    let j = choose|j: int| 0 <= j < t.len() && #[trigger] t[j].name == sh.name@;
                    assert(j == i);
                    assert(table_insert(t, sh@) == t.update(i as int, sh@));
                }
                let ghost shv = sh@;
                self.shaders.set(i, sh);
                assert(self@ =~= t.update(i as int, shv));
                assert(self@ == table_insert(t, shv));
                return;
            }
            assert(here@.subrange(0, here@.len() as int) =~= here@);
            i += 1;
        }
        proof {
            assert(!has_name(t, sh.name@));
        }
        self.shaders.push(sh);
        assert(self@ =~= t.push(sh@));
    }

    fn close_line(&mut self, sc: &mut Scan, v: &Vec<char>, a: usize, b: usize, Ghost(t): Ghost<Seq<char>>)
        requires
            line_ok(v@, a, b, t),
            old(self).wf(),
            close_phase(scan_view(*old(sc), old(self)@), t) is Some,
        ensures
            scan_view(*final(sc), final(self)@) == close_phase(scan_view(*old(sc), old(self)@), t)->0,
            final(self).wf(),
            final(sc).level <= old(sc).level,
    {
        let closes = count_in_range(v, a, b, '}');
        if closes == 0 {
            return;
        }
        if sc.level == 2 {
            let stage = sc.stage.take();
            match stage {
                Some(sg) => {
                    match sc.shader.take() {
                        Some(mut sh) => {
                            let ghost before = sh.stages@;
                            sh.stages.push(sg);
                            assert(stages_view(sh.stages@) =~= stages_view(before).push(sg@));
                            sc.shader = Some(sh);
                        },
                        None => {},
                    }
                },
                None => {},
            }
        }
        sc.level = sc.level - closes;
        if sc.level == 0 {
            match sc.shader.take() {
                Some(sh) => {
                    self.insert_shader(sh);
                },
                None => {},
            }
        }
    }

    /// Checks, without reading, that every closing brace of `content` has
    /// an opening brace to match.
    pub fn braces_balanced(content: &str) -> (ok: bool)
        ensures
            ok == braces_ok(content@),
    {
        let v = chars_of(content);
        let ghost all = lines_of(v@);
        let mut level: usize = 0;
        let mut ls: usize = 0;
        assert(v@.skip(0) =~= v@);
        loop
            invariant
                ls <= v@.len(),
                v@ == content@,
                all == lines_of(v@),
                level <= ls,
                level_after(level as int, lines_of(v@.skip(ls as int))) == level_after(0, all),
            decreases v@.len() - ls,
        {
            let ghost rest = v@.skip(ls as int);
            let mut k = ls;
            while k < v.len() && v[k] != '\n'
                invariant
                    ls <= k <= v@.len(),
                    rest == v@.skip(ls as int),
                    first_newline(rest) == (k - ls) + first_newline(v@.skip(k as int)),
                decreases v@.len() - k,
            {
                assert(v@.skip(k as int).drop_first() =~= v@.skip(k + 1));
                k += 1;
            }
            let ghost line = v@.subrange(ls as int, k as int);
            proof {
                assert(first_newline(rest) == k - ls);
                assert(rest.take((k - ls) as int) =~= line);
                if k < v@.len() {
                    assert(rest.skip((k - ls) + 1) =~= v@.skip(k + 1));
                    assert(lines_of(rest) == seq![line] + lines_of(v@.skip(k + 1)));
                    assert(lines_of(rest)[0] == line);
                    assert(lines_of(rest).drop_first() =~= lines_of(v@.skip(k + 1)));
                } else {
                    assert(rest =~= line);
                    assert(lines_of(rest) == seq![line]);
                    assert(lines_of(rest).drop_first() =~= Seq::<Seq<char>>::empty());
                }
            }
            let ghost old_level = level as int;
            let (ta, tb) = trim_range(&v, ls, k);
            let blank = ta == tb;
            let comment = range_starts_with(&v, ta, tb, &chars_of("//"));
            if !blank && !comment {
                let opens = count_in_range(&v, ta, tb, '{');
                let closes = count_in_range(&v, ta, tb, '}');
                let opened = level + opens;
                if closes > 0 {
                    if opened < closes {
                        return false;
                    }
                    level = opened - closes;
                } else {
                    level = opened;
                }
            }
            proof {
                assert(level_step(old_level, line) == Some(level as int));
            }
            if k >= v.len() {
                proof {
                    assert(level_after(level as int, Seq::<Seq<char>>::empty()) == Some(level as int));
                    assert(level_after(old_level, lines_of(rest)) == level_after(level as int, lines_of(rest).drop_first()));
                }
                return true;
            }
            ls = k + 1;
        }
    }

    /// Reads one script, adding its entries to the table (an entry replaces
    /// one of the same name).
    pub fn parse_shader_text(&mut self, content: &str)
        requires
            old(self).wf(),
            braces_ok(content@),
        ensures
            final(self).wf(),
            read_script(old(self)@, content@) is Some,
            final(self)@ == read_script(old(self)@, content@)->0.table,
    {
        let v = chars_of(content);
        let ghost all = lines_of(v@);
        proof {
            lemma_run_level(initial_scan(self@), all);
        }
        let ghost goal = run_lines(initial_scan(self@), all);
        let mut sc = Scan { level: 0, shader: None, stage: None, name: String::new() };
        let mut ls: usize = 0;
        proof {
            assert(scan_view(sc, self@) =~= initial_scan(self@));
            assert(v@.skip(0) =~= v@);
        }
        loop
            invariant_except_break
                sc.level <= ls,
                run_lines(scan_view(sc, self@), lines_of(v@.skip(ls as int))) == goal,
            invariant
                ls <= v@.len(),
                v@ == content@,
                self.wf(),
                goal is Some,
            ensures
                self.wf(),
                goal == Some(scan_view(sc, self@)),
            decreases v@.len() - ls,
        {
            let ghost rest = v@.skip(ls as int);
            let mut k = ls;
            while k < v.len() && v[k] != '\n'
                invariant
                    ls <= k <= v@.len(),
                    rest == v@.skip(ls as int),
                    first_newline(rest) == (k - ls) + first_newline(v@.skip(k as int)),
                decreases v@.len() - k,
            {
                assert(v@.skip(k as int).drop_first() =~= v@.skip(k + 1));
                k += 1;
            }
            let ghost line = v@.subrange(ls as int, k as int);
            let ghost st0 = scan_view(sc, self@);
            proof {
                assert(first_newline(rest) == k - ls);
                assert(rest.take((k - ls) as int) =~= line);
                if k < v@.len() {
                    assert(rest.skip((k - ls) + 1) =~= v@.skip(k + 1));
                    assert(lines_of(rest) == seq![line] + lines_of(v@.skip(k + 1)));
                    assert(lines_of(rest)[0] == line);
                    assert(lines_of(rest).drop_first() =~= lines_of(v@.skip(k + 1)));
                } else {
                    assert(rest =~= line);
                    assert(lines_of(rest) == seq![line]);
                }
                assert(step_line(st0, line) is Some);
            }
            let (ta, tb) = trim_range(&v, ls, k);
            let ghost t = v@.subrange(ta as int, tb as int);
            let blank = ta == tb;
            let comment = range_starts_with(&v, ta, tb, &chars_of("//"));
            if !blank && !comment {
                open_line(&mut sc, &v, ta, tb, Ghost(t), Ghost(self@));
                self.close_line(&mut sc, &v, ta, tb, Ghost(t));
                name_line(&mut sc, &v, ta, tb, Ghost(t), Ghost(self@));
                light_line(&mut sc, &v, ta, tb, Ghost(t), Ghost(self@));
                stage_line(&mut sc, &v, ta, tb, Ghost(t), Ghost(self@));
            }
            proof {
                assert(Some(scan_view(sc, self@)) == step_line(st0, line));
            }
            if k >= v.len() {
                proof {
                    assert(run_lines(scan_view(sc, self@), Seq::<Seq<char>>::empty()) == Some(scan_view(sc, self@)));
                    assert(lines_of(rest).drop_first() =~= Seq::<Seq<char>>::empty());
                }
                break;
            }
            ls = k + 1;
        }
    }

    /// The entry called `name`, if there is one.
    pub fn get_shader(&self, name: &str) -> (r: Option<&TileShader>)
        ensures
            r is Some <==> has_name(self@, name@),
            r matches Some(sh) ==> sh@.name == name@ && exists|i: int|
                0 <= i < self@.len() && #[trigger] self@[i] == sh@ && forall|q: int|
                    0 <= q < i ==> self@[q].name != name@,
    {
        let target = chars_of(name);
        let mut i: usize = 0;
        while i < self.shaders.len()
            invariant
                i <= self.shaders@.len(),
                target@ == name@,
                forall|k: int| 0 <= k < i ==> (#[trigger] self@[k]).name != name@,
            decreases self.shaders@.len() - i,
        {
            let here = chars_of(self.shaders[i].name.as_str());
            assert(self@[i as int] == self.shaders@[i as int]@);
            assert(here@.subrange(0, here@.len() as int) =~= here@);
            if range_eq(&here, 0, here.len(), &target) {
                assert(self@[i as int].name == name@);
                return Some(&self.shaders[i]);
            }
            i += 1;
        }
        None
    }

    /// All entries read so far.
    pub fn get_all_shaders(&self) -> (all: &Vec<TileShader>)
        ensures
            shaders_view(all@) == self@,
    {
        &self.shaders
    }
}

} // verus!
