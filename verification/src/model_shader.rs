//! Which shader script styles a model texture, and which model surfaces
//! are never drawn.
use vstd::prelude::*;
use crate::shader_script::{has_name, Q3ShaderParser, TileShader};
use crate::text::{chars_of, contains_seq, has_infix, replace_all, replace_in_range, string_of};

verus! {

/// The name of the shader entry for a model texture: the path without the
/// resource directory and without a `.png` or `.tga` ending.
pub open spec fn shader_name_of(path: Seq<char>) -> Seq<char> {
    replace_all(
        replace_all(replace_all(path, "q3-resources/"@, Seq::empty()), ".png"@, Seq::empty()),
        ".tga"@,
        Seq::empty(),
    )
}

/// `v` with every occurrence of `pat` replaced by `rep`.
fn replace_chars(v: &Vec<char>, pat: &str, rep: &str) -> (out: Vec<char>)
    requires
        pat@.len() > 0,
    ensures
        out@ == replace_all(v@, pat@, rep@),
{
    let p = chars_of(pat);
    let r = chars_of(rep);
    assert(v@.subrange(0, v@.len() as int) =~= v@);
    replace_in_range(v, 0, v.len(), &p, &r)
}

/// The shader name that a model texture is looked up under.
pub fn shader_name_for_texture(texture_path: &str) -> (name: String)
    ensures
        name@ == shader_name_of(texture_path@),
{
    proof {
        reveal_strlit("q3-resources/");
        reveal_strlit(".png");
        reveal_strlit(".tga");
        reveal_strlit("");
        assert(""@ =~= Seq::<char>::empty());
    }
    let v = chars_of(texture_path);
    let a = replace_chars(&v, "q3-resources/", "");
    let b = replace_chars(&a, ".png", "");
    let c = replace_chars(&b, ".tga", "");
    assert(c@.subrange(0, c@.len() as int) =~= c@);
    string_of(&c, 0, c.len())
}

/// The file a model texture is loaded from: `.tga` textures are shipped
/// as `.png`.
pub fn png_texture_path(path: &str) -> (p: String)
    ensures
        p@ == replace_all(path@, ".tga"@, ".png"@),
{
    proof {
        reveal_strlit(".tga");
    }
    let v = chars_of(path);
    let c = replace_chars(&v, ".tga", ".png");
    assert(c@.subrange(0, c@.len() as int) =~= c@);
    string_of(&c, 0, c.len())
}

/// The lower-case form of a string, as `str::to_lowercase` gives it.
pub uninterp spec fn spec_to_lowercase(s: Seq<char>) -> Seq<char>;

/// Lower-cases `s` with `str::to_lowercase`; the result is
/// `spec_to_lowercase` of `s`, which this crate does not spell out.
#[verifier::external_body]
fn lowercase_of(s: &str) -> (r: Vec<char>)
    ensures
        r@ == spec_to_lowercase(s@),
{
    s.to_lowercase().chars().collect()
}

/// Markers, in a lower-cased texture path, of the surfaces that a player
/// model does not draw: head, accessory and quad-shell skins, skate and
/// null surfaces, and flash frames.
pub open spec fn skipped_surface(lower: Seq<char>) -> bool {
    ||| has_infix(lower, "_h."@)
    ||| has_infix(lower, "_h/"@)
    ||| has_infix(lower, "_a."@)
    ||| has_infix(lower, "_a/"@)
    ||| has_infix(lower, "_q."@)
    ||| has_infix(lower, "_q/"@)
    ||| has_infix(lower, "skate"@)
    ||| has_infix(lower, "null"@)
    ||| has_infix(lower, "_f."@)
    ||| has_infix(lower, "/f_"@)
}

fn contains_str(v: &Vec<char>, w: &str) -> (r: bool)
    ensures
        r == has_infix(v@, w@),
{
    let p = chars_of(w);
    contains_seq(v, &p)
}

/// Whether a model surface with this texture is left undrawn.
pub fn should_skip_quad_for_texture(texture_path: Option<&str>) -> (r: bool)
    ensures
        r == match texture_path {
            Some(p) => skipped_surface(spec_to_lowercase(p@)),
            None => false,
        },
{
    match texture_path {
        Some(path) => {
            let lower = lowercase_of(path);
            contains_str(&lower, "_h.") || contains_str(&lower, "_h/") || contains_str(&lower, "_a.")
                || contains_str(&lower, "_a/") || contains_str(&lower, "_q.") || contains_str(
                &lower,
                "_q/",
            ) || contains_str(&lower, "skate") || contains_str(&lower, "null") || contains_str(
                &lower,
                "_f.",
            ) || contains_str(&lower, "/f_")
        },
        None => false,
    }
}

/// Looks up the shader scripts that style model textures.
pub struct ModelShaderManager {
    pub shader_parser: Option<Q3ShaderParser>,
}

impl ModelShaderManager {
    pub fn new() -> (m: Self)
        ensures
            m.shader_parser is None,
    {
        ModelShaderManager { shader_parser: None }
    }

    pub fn set_shader_parser(&mut self, parser: Q3ShaderParser)
        ensures
            final(self).shader_parser == Some(parser),
    {
        self.shader_parser = Some(parser);
    }

    /// The shader entry named after a texture, if a script table is set
    /// and holds one.
    pub fn get_shader_for_texture(&self, texture_path: &str) -> (r: Option<&TileShader>)
        ensures
            match self.shader_parser {
                None => r is None,
                Some(p) => {
                    &&& (r is Some <==> has_name(p@, shader_name_of(texture_path@)))
                    &&& (r matches Some(sh) ==> sh@.name == shader_name_of(texture_path@)
                        && exists|i: int| 0 <= i < p@.len() && #[trigger] p@[i] == sh@)
                },
            },
    {
        match &self.shader_parser {
            Some(parser) => {
                let name = shader_name_for_texture(texture_path);
                parser.get_shader(name.as_str())
            },
            None => None,
        }
    }

    /// Whether a texture has a shader entry to draw it with.
    pub fn should_use_shader(&self, texture_path: &str) -> (r: bool)
        ensures
            r == match self.shader_parser {
                None => false,
                Some(p) => has_name(p@, shader_name_of(texture_path@)),
            },
    {
        self.get_shader_for_texture(texture_path).is_some()
    }
}

} // verus!
