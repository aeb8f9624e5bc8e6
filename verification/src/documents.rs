//! Recovery of untitled documents: each is kept as `<id>.json` in the
//! `untitled` directory, and only `.json` files are read back.
use vstd::prelude::*;
use crate::json::{
    after_literal, json_quoted, lemma_after_literal, lemma_read_quoted, push_json_string, read_string,
};
use crate::text::{chars_of, push_char, push_str};

verus! {

/// An untitled document of the editor.
#[derive(Debug, PartialEq, Eq)]
pub struct UntitledDoc {
    pub id: String,
    pub name: String,
    pub content: String,
}

/// The document as JSON, fields in declaration order.
pub open spec fn untitled_doc_json(id: Seq<char>, name: Seq<char>, content: Seq<char>) -> Seq<char> {
    "{\"id\":"@ + json_quoted(id) + ",\"name\":"@ + json_quoted(name) + ",\"content\":"@
        + json_quoted(content) + seq!['}']
}

/// The file that holds the document with this id.
pub open spec fn untitled_file_name(id: Seq<char>) -> Seq<char> {
    id + ".json"@
}

/// The position of the last `.` in `name`, if any.
pub open spec fn last_dot(name: Seq<char>) -> Option<int>
    decreases name.len(),
{
    if name.len() == 0 {
        None
    } else if name.last() == '.' {
        Some(name.len() - 1)
    } else {
        last_dot(name.drop_last())
    }
}

/// The extension of a file name as `Path::extension` gives it: what follows
/// the last `.`, unless there is no `.`, the only `.` opens the name, or the
/// name is `..`.
pub open spec fn file_extension(name: Seq<char>) -> Option<Seq<char>> {
    if name == ".."@ {
        None
    } else {
        match last_dot(name) {
            Some(i) => if i == 0 {
                None
            } else {
                Some(name.subrange(i + 1, name.len() as int))
            },
            None => None,
        }
    }
}

/// The JSON text that `save_untitled_docs` writes for a document.
pub fn encode_untitled_doc(doc: &UntitledDoc) -> (r: String)
    ensures
        r@ == untitled_doc_json(doc.id@, doc.name@, doc.content@),
{
    let mut r = String::new();
    push_str(&mut r, "{\"id\":");
    push_json_string(&mut r, doc.id.as_str());
    push_str(&mut r, ",\"name\":");
    push_json_string(&mut r, doc.name.as_str());
    push_str(&mut r, ",\"content\":");
    push_json_string(&mut r, doc.content.as_str());
    push_char(&mut r, '}');
    assert(r@ =~= untitled_doc_json(doc.id@, doc.name@, doc.content@));
    r
}

/// The name of the file for the document with this id: `<id>.json`.
pub fn untitled_doc_file_name(id: &str) -> (r: String)
    ensures
        r@ == untitled_file_name(id@),
{
    let mut r = String::new();
    push_str(&mut r, id);
    push_str(&mut r, ".json");
    assert(r@ =~= untitled_file_name(id@));
    r
}

fn find_last_dot(v: &Vec<char>) -> (r: Option<usize>)
    ensures
        match (r, last_dot(v@)) {
            (Some(i), Some(j)) => i == j,
            (None, None) => true,
            _ => false,
        },
        r matches Some(i) ==> i < v.len(),
{
    let mut j = v.len();
    assert(v@.subrange(0, j as int) == v@);
    while j > 0
        invariant
            j <= v.len(),
            last_dot(v@) == last_dot(v@.subrange(0, j as int)),
        decreases j,
    {
        if v[j - 1] == '.' {
            return Some(j - 1);
        }
        assert(v@.subrange(0, j as int).drop_last() == v@.subrange(0, j - 1));
        j -= 1;
    }
    None
}

/// Whether `load_untitled_docs` reads a directory entry with this file name:
/// its extension is exactly `json`.
pub fn has_json_extension(file_name: &str) -> (r: bool)
    ensures
        r == (file_extension(file_name@) == Some("json"@)),
{
    let v = chars_of(file_name);
    proof {
        reveal_strlit("json");
        reveal_strlit("..");
    }
    if v.len() == 2 && v[0] == '.' && v[1] == '.' {
        assert(v@ =~= ".."@);
        return false;
    }
    assert(v@ != ".."@) by {
        if v@ == ".."@ {
            assert(v@.len() == 2 && v@[0] == '.' && v@[1] == '.');
        }
    }
    match find_last_dot(&v) {
        None => false,
        Some(i) => {
            if i == 0 {
                return false;
            }
            let n = v.len();
            if n - (i + 1) != 4 {
                assert(v@.subrange(i + 1, n as int).len() != "json"@.len());
                return false;
            }
            let same = v[i + 1] == 'j' && v[i + 2] == 's' && v[i + 3] == 'o' && v[i + 4] == 'n';
            if same {
                assert(v@.subrange(i + 1, n as int) =~= "json"@);
            } else {
                assert(v@.subrange(i + 1, n as int) != "json"@) by {
                    if v@.subrange(i + 1, n as int) == "json"@ {
                        assert(v@.subrange(i + 1, n as int)[0] == 'j');
                        assert(v@.subrange(i + 1, n as int)[1] == 's');
                        assert(v@.subrange(i + 1, n as int)[2] == 'o');
                        assert(v@.subrange(i + 1, n as int)[3] == 'n');
                    }
                }
            }
            same
        },
    }
}

/// Every document that `save_untitled_docs` writes under a non-empty id is
/// read back by `load_untitled_docs`: its file name has the `json` extension.
pub proof fn lemma_saved_docs_are_found(id: Seq<char>)
    requires
        id.len() > 0,
    ensures
        file_extension(untitled_file_name(id)) == Some("json"@),
{
    reveal_strlit(".json");
    reveal_strlit("json");
    reveal_strlit("..");
    let name = untitled_file_name(id);
    let n = name.len() as int;
    assert(name[n - 1] == 'n' && name[n - 2] == 'o' && name[n - 3] == 's' && name[n - 4] == 'j'
        && name[n - 5] == '.');
    assert(name.drop_last().drop_last().drop_last().drop_last().last() == '.');
    reveal_with_fuel(last_dot, 5);
    assert(last_dot(name) == Some(n - 5));
    assert(name != ".."@) by {
        if name == ".."@ {
            assert(name.len() == 2);
        }
    }
    assert(name.subrange(n - 4, n) =~= "json"@);
}

/// Each document has a file of its own: the name is the id followed by
/// `.json`, so the id is read back from the name, and different ids never
/// share a file.
pub proof fn lemma_untitled_names_distinct(a: Seq<char>, b: Seq<char>)
    ensures
        untitled_file_name(a).len() == a.len() + 5,
        untitled_file_name(a).subrange(0, a.len() as int) == a,
        untitled_file_name(a).subrange(a.len() as int, a.len() + 5int) == ".json"@,
        untitled_file_name(a) == untitled_file_name(b) ==> a == b,
{
    reveal_strlit(".json");
    let na = untitled_file_name(a);
    let nb = untitled_file_name(b);
    assert(na.subrange(0, a.len() as int) =~= a);
    assert(na.subrange(a.len() as int, a.len() + 5int) =~= ".json"@);
    assert(nb.subrange(0, b.len() as int) =~= b);
    if na == nb {
        assert(a.len() == b.len());
        assert(a =~= b);
    }
}

/// Reads a saved document as `load_untitled_docs` does: its id, name and
/// content, with nothing after the object.
pub open spec fn read_untitled_doc(t: Seq<char>) -> Option<(Seq<char>, Seq<char>, Seq<char>)> {
    match after_literal("{\"id\":"@, t) {
        Some(a) => match read_string(a) {
            Some((id, b)) => match after_literal(",\"name\":"@, b) {
                Some(c) => match read_string(c) {
                    Some((name, d)) => match after_literal(",\"content\":"@, d) {
                        Some(e) => match read_string(e) {
                            Some((content, f)) => if f == seq!['}'] {
                                Some((id, name, content))
                            } else {
                                None
                            },
                            None => None,
                        },
                        None => None,
                    },
                    None => None,
                },
                None => None,
            },
            None => None,
        },
        None => None,
    }
}

/// A saved document reads back with the same id, name and content.
pub proof fn lemma_untitled_doc_round_trip(id: Seq<char>, name: Seq<char>, content: Seq<char>)
    ensures
        read_untitled_doc(untitled_doc_json(id, name, content)) == Some((id, name, content)),
{
    let l1 = "{\"id\":"@;
    let l2 = ",\"name\":"@;
    let l3 = ",\"content\":"@;
    let t3 = json_quoted(content) + seq!['}'];
    let t2 = json_quoted(name) + (l3 + t3);
    let t1 = json_quoted(id) + (l2 + t2);
    assert(untitled_doc_json(id, name, content) =~= l1 + t1);
    lemma_after_literal(l1, t1);
    lemma_read_quoted(id, l2 + t2);
    lemma_after_literal(l2, t2);
    lemma_read_quoted(name, l3 + t3);
    lemma_after_literal(l3, t3);
    lemma_read_quoted(content, seq!['}']);
}

} // verus!
