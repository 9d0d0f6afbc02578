use sas_game::skin::SkinMapping;

#[test]
fn skin_lines_map_meshes_to_textures() {
    let text = "h_head,models/players/sarge/head.tga\n u_torso , q3-resources/models/x.tga \r\nbad line\ntag_weapon,\na,b,c\n\nh_head,models/other.tga\n";
    let s = SkinMapping::parse(text);
    assert_eq!(s.mesh_textures.len(), 2);
    assert_eq!(s.mesh_textures[0].0, "h_head");
    assert_eq!(s.get("h_head").unwrap(), "q3-resources/models/other.tga");
    assert_eq!(s.get("u_torso").unwrap(), "q3-resources/models/x.tga");
    assert!(s.get("tag_weapon").is_none());
    assert!(s.get("a").is_none());
    assert!(s.get("bad line").is_none());
}

#[test]
fn empty_skin_file() {
    let s = SkinMapping::parse("");
    assert!(s.mesh_textures.is_empty());
    assert!(s.get("h_head").is_none());
}

#[test]
fn last_line_without_newline() {
    let s = SkinMapping::parse("l_legs,models/players/sarge/legs.tga");
    assert_eq!(s.get("l_legs").unwrap(), "q3-resources/models/players/sarge/legs.tga");
}
