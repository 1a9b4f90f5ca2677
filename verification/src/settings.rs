//! The workspace-settings model: a JSON value whose object structure is
//! explicit and whose other values stay with the JSON decoder, and the
//! key-by-key merge of user settings over the defaults.

use vstd::prelude::*;

verus! {

use vstd::string::StringExecFns;

/// A JSON value as the settings merge reads it: objects and strings are
/// structured, anything else is carried through opaquely.
pub enum JsonTree {
    /// A non-object, non-string value, held as the decoder produced it.
    Leaf(serde_json::Value),
    /// A string value.
    Str(String),
    /// An object: its members in order.
    Obj(Vec<(String, JsonTree)>),
}

/// The mathematical value of a [`JsonTree`].
pub enum JsonView {
    Leaf(serde_json::Value),
    Str(Seq<char>),
    Obj(Seq<(Seq<char>, JsonView)>),
}

/// The value of a tree.
pub open spec fn tree_view(t: JsonTree) -> JsonView
    decreases t,
{
    match t {
        JsonTree::Leaf(v) => JsonView::Leaf(v),
        JsonTree::Str(s) => JsonView::Str(s@),
        JsonTree::Obj(es) => JsonView::Obj(obj_view(es@)),
    }
}

/// The value of an object's member list.
pub open spec fn obj_view(es: Seq<(String, JsonTree)>) -> Seq<(Seq<char>, JsonView)>
    decreases es,
{
    if es.len() == 0 {
        Seq::empty()
    } else {
        obj_view(es.drop_last()).push((es.last().0@, tree_view(es.last().1)))
    }
}

/// Member lists map member for member.
pub proof fn lemma_obj_view_index(es: Seq<(String, JsonTree)>, i: int)
    requires
        0 <= i < es.len(),
    ensures
        obj_view(es).len() == es.len(),
        obj_view(es)[i] == (es[i].0@, tree_view(es[i].1)),
    decreases es,
{
    lemma_obj_view_len(es);
    if i < es.len() - 1 {
        lemma_obj_view_index(es.drop_last(), i);
    }
}

/// A member list and its value have the same length.
pub proof fn lemma_obj_view_len(es: Seq<(String, JsonTree)>)
    ensures
        obj_view(es).len() == es.len(),
    decreases es,
{
    if es.len() > 0 {
        lemma_obj_view_len(es.drop_last());
    }
}

/// Replacing one member replaces exactly that member of the value.
pub proof fn lemma_obj_view_update(es: Seq<(String, JsonTree)>, i: int, e: (String, JsonTree))
    requires
        0 <= i < es.len(),
    ensures
        obj_view(es.update(i, e)) == obj_view(es).update(i, (e.0@, tree_view(e.1))),
    decreases es,
{
    lemma_obj_view_len(es);
    lemma_obj_view_len(es.update(i, e));
    let upd = es.update(i, e);
    if i == es.len() - 1 {
        assert(upd.drop_last() =~= es.drop_last());
        assert(upd.last() == e);
        assert(obj_view(es.update(i, e)) =~= obj_view(es).update(i, (e.0@, tree_view(e.1))));
    } else {
        assert(upd.drop_last() =~= es.drop_last().update(i, e));
        assert(upd.last() == es.last());
        lemma_obj_view_update(es.drop_last(), i, e);
        assert(obj_view(es.update(i, e)) =~= obj_view(es).update(i, (e.0@, tree_view(e.1))));
    }
}

/// Position of the first member with the given key.
pub open spec fn spec_lookup(es: Seq<(Seq<char>, JsonView)>, key: Seq<char>) -> Option<int>
    decreases es.len(),
{
    if es.len() == 0 {
        None
    } else if es.first().0 == key {
        Some(0)
    } else {
        match spec_lookup(es.drop_first(), key) {
            Some(j) => Some(j + 1),
            None => None,
        }
    }
}

/// What a member found by key means.
pub proof fn lemma_lookup_found(es: Seq<(Seq<char>, JsonView)>, key: Seq<char>, j: int)
    requires
        spec_lookup(es, key) == Some(j),
    ensures
        0 <= j < es.len(),
        es[j].0 == key,
        forall|m: int| 0 <= m < j ==> es[m].0 != key,
    decreases es.len(),
{
    if es.len() > 0 && es.first().0 != key {
        lemma_lookup_found(es.drop_first(), key, j - 1);
        assert forall|m: int| 0 <= m < j implies es[m].0 != key by {
            if m > 0 {
                assert(es.drop_first()[m - 1].0 != key);
            }
        }
    }
}

/// A member with the key, and none before it, is the one found.
pub proof fn lemma_lookup_at(es: Seq<(Seq<char>, JsonView)>, key: Seq<char>, j: int)
    requires
        0 <= j < es.len(),
        es[j].0 == key,
        forall|m: int| 0 <= m < j ==> es[m].0 != key,
    ensures
        spec_lookup(es, key) == Some(j),
    decreases j,
{
    if j > 0 {
        assert forall|m: int| 0 <= m < j - 1 implies es.drop_first()[m].0 != key by {
            assert(es[m + 1].0 != key);
        }
        lemma_lookup_at(es.drop_first(), key, j - 1);
    }
}

/// With no member under the key, the lookup comes back empty.
pub proof fn lemma_lookup_none(es: Seq<(Seq<char>, JsonView)>, key: Seq<char>)
    requires
        forall|m: int| 0 <= m < es.len() ==> es[m].0 != key,
    ensures
        spec_lookup(es, key) is None,
    decreases es.len(),
{
    if es.len() > 0 {
        assert forall|m: int| 0 <= m < es.len() - 1 implies es.drop_first()[m].0 != key by {
            assert(es[m + 1].0 != key);
        }
        lemma_lookup_none(es.drop_first(), key);
    }
}

/// Merge `over` onto `base`: two objects merge member by member — a member
/// of `over` replaces or recursively merges into the member of `base`
/// under the same key, and a new key is appended — and any other override
/// value replaces the base value outright.
pub open spec fn spec_merge(base: JsonView, over: JsonView) -> JsonView
    decreases over, 1int, 0int,
{
    match (base, over) {
        (JsonView::Obj(b), JsonView::Obj(o)) => JsonView::Obj(spec_merge_entries(b, over, 0)),
        (_, o2) => o2,
    }
}

/// Fold the members of the override object, from `i` on, into `acc`.
pub open spec fn spec_merge_entries(
    acc: Seq<(Seq<char>, JsonView)>,
    over: JsonView,
    i: int,
) -> Seq<(Seq<char>, JsonView)>
    decreases
            over,
            0int,
            (match over {
                JsonView::Obj(o) => o.len() - i,
                _ => 0int,
            }),
{
    match over {
        JsonView::Obj(o) => {
            if i < 0 || i >= o.len() {
                acc
            } else {
                let k = o[i].0;
                let v = o[i].1;
                let acc2 = match spec_lookup(acc, k) {
                    Some(j) => acc.update(j, (k, spec_merge(acc[j].1, v))),
                    None => acc.push((k, v)),
                };
                spec_merge_entries(acc2, over, i + 1)
            }
        },
        _ => acc,
    }
}

/// The default workspace configuration handed to the runtime: the log
/// level and the evaluation display options.
pub open spec fn spec_default_workspace_settings() -> JsonView {
    JsonView::Obj(
        seq![
            (
                "supercollider"@,
                JsonView::Obj(
                    seq![
                        ("languageServerLogLevel"@, JsonView::Str("debug"@)),
                        (
                            "sclang"@,
                            JsonView::Obj(
                                seq![
                                    ("evaluateResultPrefix"@, JsonView::Str("> "@)),
                                    ("guestEvaluateResultPrefix"@, JsonView::Str("[%|> "@)),
                                    ("postEvaluateResults"@, JsonView::Str("true"@)),
                                    ("improvedErrorReports"@, JsonView::Str("true"@)),
                                ],
                            ),
                        ),
                    ],
                ),
            ),
        ],
    )
}

/// Build the default workspace configuration.
pub fn default_workspace_settings() -> (r: JsonTree)
    ensures
        tree_view(r) == spec_default_workspace_settings(),
{
    let mut sclang: Vec<(String, JsonTree)> = Vec::new();
    sclang.push(
        (String::from_str("evaluateResultPrefix"), JsonTree::Str(String::from_str("> "))),
    );
    sclang.push(
        (String::from_str("guestEvaluateResultPrefix"), JsonTree::Str(String::from_str("[%|> "))),
    );
    sclang.push(
        (String::from_str("postEvaluateResults"), JsonTree::Str(String::from_str("true"))),
    );
    sclang.push(
        (String::from_str("improvedErrorReports"), JsonTree::Str(String::from_str("true"))),
    );
    proof {
        reveal_with_fuel(obj_view, 6);
        assert(obj_view(sclang@) =~= seq![
            ("evaluateResultPrefix"@, JsonView::Str("> "@)),
            ("guestEvaluateResultPrefix"@, JsonView::Str("[%|> "@)),
            ("postEvaluateResults"@, JsonView::Str("true"@)),
            ("improvedErrorReports"@, JsonView::Str("true"@)),
        ]);
    }
    let mut inner: Vec<(String, JsonTree)> = Vec::new();
    inner.push(
        (String::from_str("languageServerLogLevel"), JsonTree::Str(String::from_str("debug"))),
    );
    inner.push((String::from_str("sclang"), JsonTree::Obj(sclang)));
    proof {
        reveal_with_fuel(obj_view, 6);
        assert(obj_view(inner@) =~= seq![
            ("languageServerLogLevel"@, JsonView::Str("debug"@)),
            (
                "sclang"@,
                JsonView::Obj(
                    seq![
                        ("evaluateResultPrefix"@, JsonView::Str("> "@)),
                        ("guestEvaluateResultPrefix"@, JsonView::Str("[%|> "@)),
                        ("postEvaluateResults"@, JsonView::Str("true"@)),
                        ("improvedErrorReports"@, JsonView::Str("true"@)),
                    ],
                ),
            ),
        ]);
    }
    let ghost ginner = inner@;
    let mut top: Vec<(String, JsonTree)> = Vec::new();
    top.push((String::from_str("supercollider"), JsonTree::Obj(inner)));
    let ghost gtop = top@;
    let r = JsonTree::Obj(top);
    proof {
        reveal_with_fuel(obj_view, 3);
        reveal_with_fuel(tree_view, 3);
        assert(obj_view(gtop) =~= seq![("supercollider"@, JsonView::Obj(obj_view(ginner)))]);
        assert(tree_view(r) == spec_default_workspace_settings());
    }
    r
}

/// Copy a tree; the copy has the same value.
pub fn clone_tree(t: &JsonTree) -> (r: JsonTree)
    ensures
        tree_view(r) == tree_view(*t),
    decreases *t,
{
    match t {
        JsonTree::Leaf(v) => JsonTree::Leaf(v.clone()),
        JsonTree::Str(s) => JsonTree::Str(s.clone()),
        JsonTree::Obj(es) => {
            let n = es.len();
            let mut out: Vec<(String, JsonTree)> = Vec::new();
            let mut i: usize = 0;
            proof {
                assert(obj_view(out@) =~= obj_view(es@.take(0)));
            }
            while i < n
                invariant
                    *t == JsonTree::Obj(*es),
                    n == es@.len(),
                    0 <= i <= n,
                    obj_view(out@) == obj_view(es@.take(i as int)),
                decreases n - i,
            {
                let entry = &es[i];
                proof {
                    let g = *t;
                    assert(g is Obj && g->Obj_0 == *es);
                    assert(decreases_to!(g => g->Obj_0));
                    assert(decreases_to!(g->Obj_0 => g->Obj_0@));
                    assert(decreases_to!(g->Obj_0@ => g->Obj_0@[i as int]));
                    assert(decreases_to!(g->Obj_0@[i as int] => g->Obj_0@[i as int].1));
                    assert(decreases_to!(*t => es@[i as int].1));
                }
                let copy = (entry.0.clone(), clone_tree(&entry.1));
                let ghost pre = out@;
                out.push(copy);
                proof {
                    assert(out@.drop_last() =~= pre);
                    assert(es@.take(i + 1).drop_last() =~= es@.take(i as int));
                    assert(es@.take(i + 1).last() == es@[i as int]);
                }
                i = i + 1;
            }
            proof {
                assert(es@.take(n as int) =~= es@);
            }
            JsonTree::Obj(out)
        },
    }
}

/// Position of the first member under `key`.
fn find_key(es: &Vec<(String, JsonTree)>, key: &String) -> (r: Option<usize>)
    ensures
        match r {
            Some(j) => j < es@.len() && spec_lookup(obj_view(es@), key@) == Some(j as int),
            None => spec_lookup(obj_view(es@), key@) is None,
        },
{
    let n = es.len();
    let mut i: usize = 0;
    while i < n
        invariant
            n == es@.len(),
            0 <= i <= n,
            forall|m: int| 0 <= m < i ==> #[trigger] es@[m].0@ != key@,
        decreases n - i,
    {
        if es[i].0.eq(key) {
            proof {
                lemma_obj_view_len(es@);
                assert forall|m: int| 0 <= m < i implies obj_view(es@)[m].0 != key@ by {
                    lemma_obj_view_index(es@, m);
                }
                lemma_obj_view_index(es@, i as int);
                lemma_lookup_at(obj_view(es@), key@, i as int);
            }
            return Some(i);
        }
        i = i + 1;
    }
    proof {
        lemma_obj_view_len(es@);
        assert forall|m: int| 0 <= m < obj_view(es@).len() implies obj_view(es@)[m].0 != key@ by {
            lemma_obj_view_index(es@, m);
        }
        lemma_lookup_none(obj_view(es@), key@);
    }
    None
}

/// Merge `over` onto `base`, as [`spec_merge`] says.
pub fn merge_settings(base: JsonTree, over: &JsonTree) -> (r: JsonTree)
    ensures
        tree_view(r) == spec_merge(tree_view(base), tree_view(*over)),
    decreases *over,
{
    let is_obj_pair = matches!((&base, over), (JsonTree::Obj(_), JsonTree::Obj(_)));
    if !is_obj_pair {
        return clone_tree(over);
    }
    let mut acc = match base {
        JsonTree::Obj(b) => b,
        _ => {
            return clone_tree(over);
        },
    };
    let ghost b0 = obj_view(acc@);
    let ghost gover = tree_view(*over);
    match over {
        JsonTree::Obj(o) => {
            let n = o.len();
            let mut i: usize = 0;
            while i < n
                invariant
                    *over == JsonTree::Obj(*o),
                    n == o@.len(),
                    gover == JsonView::Obj(obj_view(o@)),
                    spec_merge_entries(b0, gover, 0) == spec_merge_entries(
                        obj_view(acc@),
                        gover,
                        i as int,
                    ),
                decreases n - i,
            {
                let key = &o[i].0;
                let v = &o[i].1;
                proof {
                    lemma_obj_view_len(o@);
                    lemma_obj_view_index(o@, i as int);
                }
                let ghost acc_pre = obj_view(acc@);
                let ghost pre_seq = acc@;
                let ghost gk = o@[i as int].0@;
                let ghost gv = tree_view(o@[i as int].1);
                match find_key(&acc, key) {
                    Some(j) => {
                        let removed = acc.remove(j);
                        proof {
                            let g = *over;
                            assert(g is Obj && g->Obj_0 == *o);
                            assert(decreases_to!(g => g->Obj_0));
                            assert(decreases_to!(g->Obj_0 => g->Obj_0@));
                            assert(decreases_to!(g->Obj_0@ => g->Obj_0@[i as int]));
                            assert(decreases_to!(g->Obj_0@[i as int] => g->Obj_0@[i as int].1));
                            assert(decreases_to!(*over => o@[i as int].1));
                        }
                        let merged = merge_settings(removed.1, v);
                        let entry = (key.clone(), merged);
                        let ghost ge = entry;
                        acc.insert(j, entry);
                        proof {
                            lemma_lookup_found(acc_pre, gk, j as int);
                            lemma_obj_view_index(pre_seq, j as int);
                            assert(acc@ =~= pre_seq.update(j as int, ge));
                            lemma_obj_view_update(pre_seq, j as int, ge);
                            assert(tree_view(ge.1) == spec_merge(acc_pre[j as int].1, gv));
                            assert(obj_view(acc@) =~= acc_pre.update(
                                j as int,
                                (gk, spec_merge(acc_pre[j as int].1, gv)),
                            ));
                            assert(spec_merge_entries(acc_pre, gover, i as int)
                                == spec_merge_entries(obj_view(acc@), gover, i + 1));
                        }
                    },
                    None => {
                        let entry = (key.clone(), clone_tree(v));
                        let ghost ge = entry;
                        acc.push(entry);
                        proof {
                            assert(acc@.drop_last() =~= pre_seq);
                            assert(acc@.last() == ge);
                            assert(obj_view(acc@) =~= acc_pre.push((gk, gv)));
                            assert(spec_merge_entries(acc_pre, gover, i as int)
                                == spec_merge_entries(obj_view(acc@), gover, i + 1));
                        }
                    },
                }
                i = i + 1;
            }
            proof {
                lemma_obj_view_len(o@);
                assert(spec_merge_entries(obj_view(acc@), gover, n as int) == obj_view(acc@));
                assert(tree_view(base) == JsonView::Obj(b0));
                assert(spec_merge(tree_view(base), gover) == JsonView::Obj(
                    spec_merge_entries(b0, gover, 0),
                ));
            }
            JsonTree::Obj(acc)
        },
        _ => {
            proof {
                assert(false);
            }
            JsonTree::Obj(acc)
        },
    }
}

} // verus!
