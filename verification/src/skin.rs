//! Reader of `.skin` files: lines `mesh_name,texture_path` naming the
//! texture of each mesh of a player model.
use vstd::prelude::*;
use crate::text::{
    chars_of, count_char, count_in_range, push_char, range_eq, range_starts_with, starts_with,
    string_of, trim, trim_range,
};
use crate::shader_script::{first_newline, lines_of};

verus! {

broadcast use vstd::string::group_string_axioms;

/// Index of the first `c` of `s`, or its length.
pub open spec fn first_of(s: Seq<char>, c: char) -> nat
    decreases s.len(),
{
    if s.len() == 0 || s[0] == c {
        0
    } else {
        1 + first_of(s.drop_first(), c)
    }
}

pub open spec fn has_key(m: Seq<(Seq<char>, Seq<char>)>, k: Seq<char>) -> bool {
    exists|i: int| 0 <= i < m.len() && #[trigger] m[i].0 == k
}

/// Sets the texture of a mesh, in place of an earlier one for that mesh.
pub open spec fn map_insert(m: Seq<(Seq<char>, Seq<char>)>, k: Seq<char>, v: Seq<char>) -> Seq<
    (Seq<char>, Seq<char>),
> {
    if has_key(m, k) {
        let i = choose|i: int| 0 <= i < m.len() && #[trigger] m[i].0 == k;
        m.update(i, (k, v))
    } else {
        m.push((k, v))
    }
}

pub open spec fn keys_unique(m: Seq<(Seq<char>, Seq<char>)>) -> bool {
    forall|i: int, j: int|
        0 <= i < m.len() && 0 <= j < m.len() && i != j ==> #[trigger] m[i].0 != #[trigger] m[j].0
}

/// Textures not already under the resource directory are looked up there.
pub open spec fn skin_texture_path(tex: Seq<char>) -> Seq<char> {
    if starts_with(tex, "q3-resources/"@) {
        tex
    } else {
        "q3-resources/"@ + tex
    }
}

/// One line: exactly one comma splits it into a mesh name and a texture
/// path (each trimmed); a line with an empty texture, or without exactly
/// one comma, is ignored.
pub open spec fn skin_line(m: Seq<(Seq<char>, Seq<char>)>, raw: Seq<char>) -> Seq<(Seq<char>, Seq<char>)> {
    let t = trim(raw);
    if count_char(t, ',') == 1 {
        let k = first_of(t, ',');
        let mesh = trim(t.take(k as int));
        let tex = trim(t.skip((k + 1) as int));
        if tex.len() > 0 {
            map_insert(m, mesh, skin_texture_path(tex))
        } else {
            m
        }
    } else {
        m
    }
}

pub open spec fn skin_lines(m: Seq<(Seq<char>, Seq<char>)>, lines: Seq<Seq<char>>) -> Seq<(Seq<char>, Seq<char>)>
    decreases lines.len(),
{
    if lines.len() == 0 {
        m
    } else {
        skin_lines(skin_line(m, lines[0]), lines.drop_first())
    }
}

/// The mesh-to-texture table of a skin file.
pub open spec fn read_skin(text: Seq<char>) -> Seq<(Seq<char>, Seq<char>)> {
    skin_lines(Seq::empty(), lines_of(text))
}

pub struct SkinMapping {
    pub mesh_textures: Vec<(String, String)>,
}

pub open spec fn mapping_view(v: Seq<(String, String)>) -> Seq<(Seq<char>, Seq<char>)> {
    v.map_values(|p: (String, String)| (p.0@, p.1@))
}

proof fn lemma_map_insert_unique(m: Seq<(Seq<char>, Seq<char>)>, k: Seq<char>, v: Seq<char>)
    requires
        keys_unique(m),
    ensures
        keys_unique(map_insert(m, k, v)),
{
    if has_key(m, k) {
        let i = choose|i: int| 0 <= i < m.len() && #[trigger] m[i].0 == k;
        let m2 = m.update(i, (k, v));
        assert forall|a: int, b: int|
            0 <= a < m2.len() && 0 <= b < m2.len() && a != b implies #[trigger] m2[a].0 != #[trigger] m2[b].0 by {
            if a != i && b != i {
                assert(m[a].0 != m[b].0);
            } else if a == i {
                assert(m[i].0 != m[b].0);
            } else {
                assert(m[a].0 != m[i].0);
            }
        }
    } else {
        let m2 = m.push((k, v));
        assert forall|a: int, b: int|
            0 <= a < m2.len() && 0 <= b < m2.len() && a != b implies #[trigger] m2[a].0 != #[trigger] m2[b].0 by {
            if a < m.len() && b < m.len() {
                assert(m[a].0 != m[b].0);
            } else if a < m.len() {
                assert(m[a].0 == m2[a].0);
            } else {
                assert(m[b].0 == m2[b].0);
            }
        }
    }
}

impl SkinMapping {
    /// No mesh is listed twice.
    pub open spec fn wf(&self) -> bool {
        keys_unique(mapping_view(self.mesh_textures@))
    }

    fn insert(&mut self, mesh: String, tex: String)
        requires
            old(self).wf(),
        ensures
            final(self).wf(),
            mapping_view(final(self).mesh_textures@) == map_insert(
                mapping_view(old(self).mesh_textures@),
                mesh@,
                tex@,
            ),
    {
        let ghost m = mapping_view(self.mesh_textures@);
        proof {
            lemma_map_insert_unique(m, mesh@, tex@);
        }
        let target = chars_of(mesh.as_str());
        let mut i: usize = 0;
        while i < self.mesh_textures.len()
            invariant
                m == mapping_view(self.mesh_textures@),
                m == mapping_view(old(self).mesh_textures@),
                keys_unique(m),
                i <= self.mesh_textures@.len(),
                target@ == mesh@,
                forall|q: int| 0 <= q < i ==> (#[trigger] m[q]).0 != mesh@,
            decreases self.mesh_textures@.len() - i,
        {
            let here = chars_of(self.mesh_textures[i].0.as_str());
            assert(here@.subrange(0, here@.len() as int) =~= here@);
            if range_eq(&here, 0, here.len(), &target) {
                proof {
                    assert(m[i as int].0 == mesh@);
                    assert(has_key(m, mesh@));
                    let j = choose|j: int| 0 <= j < m.len() && #[trigger] m[j].0 == mesh@;
                    assert(j == i);
                    assert(map_insert(m, mesh@, tex@) == m.update(i as int, (mesh@, tex@)));
                }
                let ghost kv = (mesh@, tex@);
                self.mesh_textures.set(i, (mesh, tex));
                assert(mapping_view(self.mesh_textures@) =~= m.update(i as int, kv));
                return;
            }
            i += 1;
        }
        let ghost kv = (mesh@, tex@);
        self.mesh_textures.push((mesh, tex));
        assert(mapping_view(self.mesh_textures@) =~= m.push(kv));
    }

    /// The texture of each mesh listed in a skin file.
    pub fn parse(content: &str) -> (s: Self)
        ensures
            s.wf(),
            mapping_view(s.mesh_textures@) == read_skin(content@),
    {
        let v = chars_of(content);
        let mut map = SkinMapping { mesh_textures: Vec::new() };
        let mut ls: usize = 0;
        proof {
            assert(mapping_view(map.mesh_textures@) =~= Seq::empty());
            assert(v@.skip(0) =~= v@);
        }
        let comma = chars_of(",");
        let prefix = chars_of("q3-resources/");
        loop
            invariant_except_break
                skin_lines(mapping_view(map.mesh_textures@), lines_of(v@.skip(ls as int))) == read_skin(v@),
            invariant
                ls <= v@.len(),
                v@ == content@,
                map.wf(),
                prefix@ == "q3-resources/"@,
            ensures
                map.wf(),
                mapping_view(map.mesh_textures@) == read_skin(v@),
            decreases v@.len() - ls,
        {
            let ghost rest = v@.skip(ls as int);
            let mut k = ls;
            while k < v.len() && v[k] != '\n'
                invariant
                    ls <= k <= v@.len(),
                    rest == v@.skip(ls as int),
                    first_newline(rest) == (k - ls) + first_newline(v@.skip(k as int)),
                decreases v@.len() - k,
            {
                assert(v@.skip(k as int).drop_first() =~= v@.skip(k + 1));
                k += 1;
            }
            let ghost line = v@.subrange(ls as int, k as int);
            let ghost m0 = mapping_view(map.mesh_textures@);
            proof {
                assert(first_newline(rest) == k - ls);
                assert(rest.take((k - ls) as int) =~= line);
                if k < v@.len() {
                    assert(rest.skip((k - ls) + 1) =~= v@.skip(k + 1));
                    assert(lines_of(rest) == seq![line] + lines_of(v@.skip(k + 1)));
                    assert(lines_of(rest)[0] == line);
                    assert(lines_of(rest).drop_first() =~= lines_of(v@.skip(k + 1)));
                } else {
                    assert(rest =~= line);
                    assert(lines_of(rest) == seq![line]);
                    assert(lines_of(rest).drop_first() =~= Seq::<Seq<char>>::empty());
                }
            }
            let (ta, tb) = trim_range(&v, ls, k);
            let ghost t = v@.subrange(ta as int, tb as int);
            if count_in_range(&v, ta, tb, ',') == 1 {
                let mut c = ta;
                while c < tb && v[c] != ','
                    invariant
                        ta <= c <= tb <= v@.len(),
                        t == v@.subrange(ta as int, tb as int),
                        first_of(t, ',') == (c - ta) + first_of(v@.subrange(c as int, tb as int), ','),
                    decreases tb - c,
                {
                    assert(v@.subrange(c as int, tb as int).drop_first() =~= v@.subrange(c + 1, tb as int));
                    c += 1;
                }
                proof {
                    assert(first_of(t, ',') == c - ta);
                    if c == tb {
                        assert(v@.subrange(c as int, tb as int).len() == 0);
                        assert(count_char(t, ',') == 0) by {
                            lemma_count_absent(t, ',');
                        }
                    }
                    assert(t.take((c - ta) as int) =~= v@.subrange(ta as int, c as int));
                    assert(t.skip((c - ta) + 1) =~= v@.subrange(c + 1, tb as int));
                }
                let (ma, mb) = trim_range(&v, ta, c);
                let (xa, xb) = trim_range(&v, c + 1, tb);
                if xa < xb {
                    let mesh = string_of(&v, ma, mb);
                    let tex = if range_starts_with(&v, xa, xb, &prefix) {
                        string_of(&v, xa, xb)
                    } else {
                        let mut s = "q3-resources/".to_owned();
                        let ghost base = s@;
                        let mut q = xa;
                        while q < xb
                            invariant
                                xa <= q <= xb <= v@.len(),
                                base == "q3-resources/"@,
                                s@ == base + v@.subrange(xa as int, q as int),
                            decreases xb - q,
                        {
                            push_char(&mut s, v[q]);
                            q += 1;
                            assert(s@ =~= base + v@.subrange(xa as int, q as int));
                        }
                        s
                    };
                    map.insert(mesh, tex);
                }
            }
            proof {
                assert(mapping_view(map.mesh_textures@) == skin_line(m0, line));
            }
            if k >= v.len() {
                proof {
                    assert(lines_of(rest).drop_first() =~= Seq::<Seq<char>>::empty());
                    assert(skin_lines(m0, lines_of(rest)) == skin_lines(
                        skin_line(m0, line),
                        Seq::<Seq<char>>::empty(),
                    ));
                }
                break;
            }
            ls = k + 1;
        }
        map
    }

    /// The texture of a mesh, if the skin names one.
    pub fn get(&self, mesh: &str) -> (r: Option<&String>)
        ensures
            r is Some <==> has_key(mapping_view(self.mesh_textures@), mesh@),
            r matches Some(t) ==> exists|i: int|
                0 <= i < self.mesh_textures@.len() && #[trigger] self.mesh_textures@[i].0@ == mesh@
                    && self.mesh_textures@[i].1 == *t && forall|q: int|
                    0 <= q < i ==> self.mesh_textures@[q].0@ != mesh@,
    {
        let target = chars_of(mesh);
        let mut i: usize = 0;
        while i < self.mesh_textures.len()
            invariant
                i <= self.mesh_textures@.len(),
                target@ == mesh@,
                forall|q: int| 0 <= q < i ==> (#[trigger] mapping_view(self.mesh_textures@)[q]).0 != mesh@,
            decreases self.mesh_textures@.len() - i,
        {
            let here = chars_of(self.mesh_textures[i].0.as_str());
            assert(here@.subrange(0, here@.len() as int) =~= here@);
            assert(mapping_view(self.mesh_textures@)[i as int].0 == self.mesh_textures@[i as int].0@);
            if range_eq(&here, 0, here.len(), &target) {
                assert forall|q: int| 0 <= q < i implies self.mesh_textures@[q].0@ != mesh@ by {
                    assert(mapping_view(self.mesh_textures@)[q].0 == self.mesh_textures@[q].0@);
                }
                return Some(&self.mesh_textures[i].1);
            }
            i += 1;
        }
        None
    }
}

proof fn lemma_count_absent(t: Seq<char>, c: char)
    requires
        first_of(t, c) == t.len(),
    ensures
        count_char(t, c) == 0,
    decreases t.len(),
{
    if t.len() > 0 {
        assert(t[0] != c);
        lemma_count_absent(t.drop_first(), c);
        lemma_count_first(t, c);
    }
}

proof fn lemma_count_first(t: Seq<char>, c: char)
    requires
        t.len() > 0,
    ensures
        count_char(t, c) == count_char(t.drop_first(), c) + if t[0] == c {
            1nat
        } else {
            0nat
        },
    decreases t.len(),
{
    if t.len() > 1 {
        lemma_count_first(t.drop_last(), c);
        assert(t.drop_last().drop_first() =~= t.drop_first().drop_last());
    } else {
        assert(t.drop_last() =~= Seq::<char>::empty());
        assert(t.drop_first() =~= Seq::<char>::empty());
    }
}

} // verus!
