use sas_game::model_shader::{
    png_texture_path, shader_name_for_texture, should_skip_quad_for_texture, ModelShaderManager,
};
use sas_game::shader_script::{apply_blend_func, BlendMode, Q3ShaderParser, ShaderStage};

const SCRIPT: &str = "// glowing wall\n\
textures/base_wall/glow\n\
{\n\
    q3map_surfacelight 300\n\
    {\n\
        map textures/base_wall/glow.tga\n\
        blendFunc GL_ONE GL_ONE\n\
        tcMod scroll 0.5 1\n\
        tcMod rotate 30\n\
    }\n\
    {\n\
        clampmap $lightmap\n\
        blendFunc add\n\
    }\n\
}\n";

fn parsed(text: &str) -> Q3ShaderParser {
    assert!(Q3ShaderParser::braces_balanced(text));
    let mut p = Q3ShaderParser::new();
    p.parse_shader_text(text);
    p
}

#[test]
fn parses_entry_with_stages() {
    let p = parsed(SCRIPT);
    assert_eq!(p.get_all_shaders().len(), 1);
    let sh = p.get_shader("textures/base_wall/glow").unwrap();
    assert_eq!(sh.name, "textures/base_wall/glow");
    assert_eq!(sh.surface_light, vec!["300".to_string()]);
    assert_eq!(sh.stages.len(), 2);
    let s0 = &sh.stages[0];
    assert_eq!(s0.texture_path, "q3-resources/textures/base_wall/glow.png");
    assert_eq!(s0.blend_mode, BlendMode::Add);
    assert!(s0.glow);
    assert_eq!(s0.glow_intensity_percent, 80);
    assert_eq!(s0.scroll, vec![("0.5".to_string(), "1".to_string())]);
    assert_eq!(s0.rotate, vec!["30".to_string()]);
    assert!(s0.scale.is_empty());
}

#[test]
fn blend_func_operand_is_case_insensitive() {
    let p = parsed(SCRIPT);
    let s1 = &p.get_shader("textures/base_wall/glow").unwrap().stages[1];
    assert_eq!(s1.texture_path, "$lightmap");
    assert_eq!(s1.blend_mode, BlendMode::Add);
    assert!(!s1.glow);
}

#[test]
fn map_keeps_first_texture_and_skips_special_images() {
    let text = "a\n{\n{\nmap $whiteimage\nmap textures/x.tga\nmap textures/y.tga\n}\n}\n";
    let p = parsed(text);
    let sh = p.get_shader("a").unwrap();
    assert_eq!(sh.stages[0].texture_path, "q3-resources/textures/x.png");
}

#[test]
fn later_entry_replaces_same_name() {
    let text = "dup\n{\nq3map_surfacelight 1\n}\nother\n{\n}\ndup\n{\nq3map_surfacelight 2\n}\n";
    let p = parsed(text);
    assert_eq!(p.get_all_shaders().len(), 2);
    assert_eq!(p.get_all_shaders()[0].name, "dup");
    assert_eq!(p.get_shader("dup").unwrap().surface_light, vec!["2".to_string()]);
    assert!(p.get_shader("other").unwrap().stages.is_empty());
    assert!(p.get_shader("missing").is_none());
}

#[test]
fn unmatched_closing_brace_is_detected() {
    assert!(!Q3ShaderParser::braces_balanced("}\n{\n"));
    assert!(!Q3ShaderParser::braces_balanced("a\n{\n}}\n"));
    assert!(Q3ShaderParser::braces_balanced("// }\n"));
    assert!(Q3ShaderParser::braces_balanced(""));
}

#[test]
fn blend_func_filter_and_unknown() {
    let mut stage = ShaderStage {
        texture_path: String::new(),
        blend_mode: BlendMode::NoBlend,
        glow: false,
        glow_intensity_percent: 0,
        scroll: Vec::new(),
        scale: Vec::new(),
        rotate: Vec::new(),
    };
    apply_blend_func(&mut stage, &"FILTER".chars().collect(), None);
    assert_eq!(stage.blend_mode, BlendMode::Filter);
    apply_blend_func(&mut stage, &"GL_ONE".chars().collect(), None);
    assert_eq!(stage.blend_mode, BlendMode::Filter);
    assert!(!stage.glow);
    apply_blend_func(&mut stage, &"GL_DST_COLOR".chars().collect(), Some("GL_ZERO".chars().collect()));
    assert_eq!(stage.blend_mode, BlendMode::Filter);
}

#[test]
fn shader_name_drops_directory_and_extension() {
    assert_eq!(
        shader_name_for_texture("q3-resources/models/players/sarge/band.tga"),
        "models/players/sarge/band"
    );
    assert_eq!(shader_name_for_texture("a.png.tga"), "a");
    assert_eq!(png_texture_path("models/x.tga"), "models/x.png");
    assert_eq!(png_texture_path("models/x.jpg"), "models/x.jpg");
}

#[test]
fn skipped_model_surfaces() {
    assert!(should_skip_quad_for_texture(Some("models/players/sarge/head_h.tga")));
    assert!(should_skip_quad_for_texture(Some("models/players/SARGE/SKATE.tga")));
    assert!(should_skip_quad_for_texture(Some("textures/NULL")));
    assert!(should_skip_quad_for_texture(Some("models/weapons2/bfg/f_bfg.png")));
    assert!(!should_skip_quad_for_texture(Some("models/players/sarge/body.png")));
    assert!(!should_skip_quad_for_texture(None));
}

#[test]
fn model_shader_lookup_by_texture() {
    let mut m = ModelShaderManager::new();
    assert!(m.get_shader_for_texture("q3-resources/models/x.png").is_none());
    let p = parsed("models/x\n{\ncull disable\n}\n");
    m.set_shader_parser(p);
    assert!(m.should_use_shader("q3-resources/models/x.png"));
    assert!(m.should_use_shader("models/x.tga"));
    assert!(!m.should_use_shader("models/y.tga"));
    assert_eq!(m.get_shader_for_texture("models/x").unwrap().name, "models/x");
}
