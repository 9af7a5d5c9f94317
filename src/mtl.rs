use vstd::prelude::*;
use vstd::string::*;

use crate::text::{is_word, split_on, tokenize_line};

verus! {

/// The name a material has until a `newmtl` line names it.
pub open spec fn unnamed_material() -> Seq<char> {
    seq!['u', 'n', 'n', 'a', 'm', 'e', 'd', '_', 'm', 'a', 't']
}

/// The map that a list of (name, file) entries gives, later entries
/// overriding earlier ones of the same name.
pub open spec fn entries_map(e: Seq<(String, String)>) -> Map<Seq<char>, Seq<char>>
    decreases e.len(),
{
    if e.len() == 0 {
        Map::empty()
    } else {
        entries_map(e.drop_last()).insert(e.last().0@, e.last().1@)
    }
}

/// Reads one line of a material library into the map from material name to
/// texture file, where `current` is the material being described.
pub open spec fn library_step(
    map: Map<Seq<char>, Seq<char>>,
    current: Seq<char>,
    line: Seq<char>,
) -> (Map<Seq<char>, Seq<char>>, Seq<char>) {
    let pieces = split_on(line, ' ');
    let id = pieces[0];
    let points = pieces.drop_first();
    if id == seq!['n', 'e', 'w', 'm', 't', 'l'] && points.len() > 0 {
        (map, points[0])
    } else if id == seq!['m', 'a', 'p', '_', 'K', 'd'] && points.len() > 0 {
        (map.insert(current, points[0]), current)
    } else {
        (map, current)
    }
}

/// The map and current material after reading `lines` from the start.
pub open spec fn library_of(lines: Seq<Seq<char>>) -> (Map<Seq<char>, Seq<char>>, Seq<char>)
    decreases lines.len(),
{
    if lines.len() == 0 {
        (Map::empty(), unnamed_material())
    } else {
        let st = library_of(lines.drop_last());
        library_step(st.0, st.1, lines.last())
    }
}

/// Where no entry from `m` on has the name `k`, the map of the first `m`
/// entries already says what the whole list says of `k`.
pub proof fn lemma_entries_suffix(e: Seq<(String, String)>, m: int, k: Seq<char>)
    requires
        0 <= m <= e.len(),
        forall|j: int| m <= j < e.len() ==> (#[trigger] e[j]).0@ != k,
    ensures
        entries_map(e).contains_key(k) == entries_map(e.take(m)).contains_key(k),
        entries_map(e).contains_key(k) ==> entries_map(e)[k] == entries_map(e.take(m))[k],
    decreases e.len(),
{
    if m == e.len() {
        assert(e.take(m) =~= e);
    } else {
        assert(e.drop_last().take(m) =~= e.take(m));
        lemma_entries_suffix(e.drop_last(), m, k);
    }
}

/// A material library: for each material, the image file of its diffuse
/// texture.
pub struct MaterialTemplateLibrary {
    pub entries: Vec<(String, String)>,
}

impl View for MaterialTemplateLibrary {
    type V = Map<Seq<char>, Seq<char>>;

    open spec fn view(&self) -> Map<Seq<char>, Seq<char>> {
        entries_map(self.entries@)
    }
}

impl MaterialTemplateLibrary {
    /// Reads the lines of a material library: `newmtl` names the material
    /// that the following lines describe, and `map_Kd` gives its texture file.
    pub fn read(lines: &Vec<String>) -> (r: Self)
        ensures
            r@ == library_of(lines.deep_view()).0,
    {
        let mut entries: Vec<(String, String)> = Vec::new();
        let mut current = String::new();
        current.append("unnamed_mat");
        proof {
            reveal_strlit("unnamed_mat");
            assert(current@ =~= unnamed_material());
            assert(lines.deep_view().take(0) =~= Seq::<Seq<char>>::empty());
        }
        let name_word = ['n', 'e', 'w', 'm', 't', 'l'];
        let texture_word = ['m', 'a', 'p', '_', 'K', 'd'];
        proof {
            assert(name_word@ =~= seq!['n', 'e', 'w', 'm', 't', 'l']);
            assert(texture_word@ =~= seq!['m', 'a', 'p', '_', 'K', 'd']);
        }
        let mut i: usize = 0;
        while i < lines.len()
            invariant
                i <= lines.len(),
                name_word@ == seq!['n', 'e', 'w', 'm', 't', 'l'],
                texture_word@ == seq!['m', 'a', 'p', '_', 'K', 'd'],
                library_of(lines.deep_view().take(i as int)) == (entries_map(entries@), current@),
            decreases lines.len() - i,
        {
            proof {
                assert(lines.deep_view().take(i + 1).drop_last() =~= lines.deep_view().take(
                    i as int,
                ));
                assert(lines.deep_view().take(i + 1).last() == lines[i as int]@);
            }
            let (id, points) = tokenize_line(lines[i].clone());
            if is_word(id.as_str(), &name_word) && points.len() > 0 {
                assert(points.deep_view()[0] == points[0]@);
                current = points[0].clone();
            } else if is_word(id.as_str(), &texture_word) && points.len() > 0 {
                assert(points.deep_view()[0] == points[0]@);
                let ghost before = entries@;
                entries.push((current.clone(), points[0].clone()));
                proof {
                    assert(entries@.drop_last() =~= before);
                }
            }
            i = i + 1;
        }
        proof {
            assert(lines.deep_view().take(lines.len() as int) =~= lines.deep_view());
        }
        MaterialTemplateLibrary { entries }
    }

    /// The texture file of the material `name`, if the library gives one.
    pub fn get(&self, name: &String) -> (r: Option<String>)
        ensures
            match r {
                Some(f) => self@.contains_key(name@) && self@[name@] == f@,
                None => !self@.contains_key(name@),
            },
    {
        let mut i: usize = self.entries.len();
        while i > 0
            invariant
                i <= self.entries.len(),
                forall|j: int| i <= j < self.entries.len() ==> (#[trigger] self.entries@[j]).0@ != name@,
            decreases i,
        {
            i = i - 1;
            if self.entries[i].0 == *name {
                proof {
                    let e = self.entries@;
                    lemma_entries_suffix(e, i + 1, name@);
                    assert(e.take(i + 1).drop_last() =~= e.take(i as int));
                    assert(e.take(i + 1).last() == e[i as int]);
                }
                return Some(self.entries[i].1.clone());
            }
        }
        proof {
            lemma_entries_suffix(self.entries@, 0, name@);
        }
        None
    }
}

} // verus!
