//! Config files as trees of tables, and the migration merge that fills in
//! every key a config lacks from the current defaults. A leaf is held as a
//! handle: which value it is matters to the merge only as a whole.

use crate::text::copy_string;
use crate::text::str_eq;
use vstd::prelude::*;

verus! {

/// A config value: a table of keyed values, or a leaf (any other value,
/// named by a handle).
pub enum ConfigValue {
    Table(Vec<(String, ConfigValue)>),
    Leaf(u64),
}

/// The mathematical form of a config value.
pub enum ConfigModel {
    Table(Seq<(Seq<char>, ConfigModel)>),
    Leaf(u64),
}

pub open spec fn model(v: ConfigValue) -> ConfigModel
    decreases v,
{
    match v {
        ConfigValue::Table(t) => ConfigModel::Table(models(t@)),
        ConfigValue::Leaf(h) => ConfigModel::Leaf(h),
    }
}

pub open spec fn models(t: Seq<(String, ConfigValue)>) -> Seq<(Seq<char>, ConfigModel)>
    decreases t,
{
    if t.len() == 0 {
        Seq::empty()
    } else {
        models(t.drop_last()).push((t.last().0@, model(t.last().1)))
    }
}

/// The index of the first entry with key `k`.
pub open spec fn first_index(t: Seq<(Seq<char>, ConfigModel)>, k: Seq<char>) -> Option<int> {
    if exists|i: int| 0 <= i < t.len() && (#[trigger] t[i]).0 == k && forall|j: int| 0 <= j < i ==> (#[trigger] t[j]).0 != k {
        Some(choose|i: int| 0 <= i < t.len() && (#[trigger] t[i]).0 == k && forall|j: int| 0 <= j < i ==> (#[trigger] t[j]).0 != k)
    } else {
        None
    }
}

/// One default entry merged into a table: merged into the entry with its
/// key, or added at the end when the table has none.
pub open spec fn merge_step(t: Seq<(Seq<char>, ConfigModel)>, entry: (Seq<char>, ConfigModel)) -> Seq<(Seq<char>, ConfigModel)>
    decreases entry.1, 1int,
{
    match first_index(t, entry.0) {
        Some(i) => t.update(i, (entry.0, merge_model(t[i].1, entry.1))),
        None => t.push(entry),
    }
}

/// The default entries merged into a table, one after the other.
pub open spec fn merge_table(t: Seq<(Seq<char>, ConfigModel)>, d: Seq<(Seq<char>, ConfigModel)>) -> Seq<(Seq<char>, ConfigModel)>
    decreases d, 0int,
{
    if d.len() == 0 {
        t
    } else {
        merge_table(merge_step(t, d[0]), d.drop_first())
    }
}

/// A config merged with the defaults: two tables merge key by key; in any
/// other case the existing value stays.
pub open spec fn merge_model(e: ConfigModel, d: ConfigModel) -> ConfigModel
    decreases d, 0int,
{
    match e {
        ConfigModel::Table(et) => match d {
            ConfigModel::Table(dt) => ConfigModel::Table(merge_table(et, dt)),
            ConfigModel::Leaf(_) => e,
        },
        ConfigModel::Leaf(_) => e,
    }
}


proof fn lemma_models_index(t: Seq<(String, ConfigValue)>)
    ensures
        models(t).len() == t.len(),
        forall|i: int| 0 <= i < t.len() ==> #[trigger] models(t)[i] == (t[i].0@, model(t[i].1)),
    decreases t.len(),
{
    if t.len() > 0 {
        lemma_models_index(t.drop_last());
        assert forall|i: int| 0 <= i < t.len() implies #[trigger] models(t)[i] == (t[i].0@, model(t[i].1)) by {
            if i < t.len() - 1 {
                assert(t.drop_last()[i] == t[i]);
            }
        }
    }
}

proof fn lemma_models_at(t: Seq<(String, ConfigValue)>, i: int)
    requires
        0 <= i < t.len(),
    ensures
        models(t).len() == t.len(),
        models(t)[i] == (t[i].0@, model(t[i].1)),
    decreases t.len(),
{
    lemma_models_len(t);
    if i < t.len() - 1 {
        lemma_models_at(t.drop_last(), i);
        assert(t.drop_last()[i] == t[i]);
    }
}

proof fn lemma_models_len(t: Seq<(String, ConfigValue)>)
    ensures
        models(t).len() == t.len(),
    decreases t.len(),
{
    if t.len() > 0 {
        lemma_models_len(t.drop_last());
    }
}

proof fn lemma_models_update(t: Seq<(String, ConfigValue)>, i: int, x: (String, ConfigValue))
    requires
        0 <= i < t.len(),
    ensures
        models(t.update(i, x)) == models(t).update(i, (x.0@, model(x.1))),
{
    lemma_models_index(t);
    lemma_models_index(t.update(i, x));
    assert(models(t.update(i, x)) =~= models(t).update(i, (x.0@, model(x.1))));
}

/// A copy of a config value.
pub fn copy_value(v: &ConfigValue) -> (r: ConfigValue)
    ensures
        model(r) == model(*v),
    decreases v,
{
    match v {
        ConfigValue::Leaf(h) => ConfigValue::Leaf(*h),
        ConfigValue::Table(t) => {
            let mut out: Vec<(String, ConfigValue)> = Vec::new();
            let mut i: usize = 0;
            assert(t@.take(0) =~= Seq::<(String, ConfigValue)>::empty());
            while i < t.len()
                invariant
                    i <= t@.len(),
                    *v == ConfigValue::Table(*t),
                    models(out@) == models(t@.take(i as int)),
                decreases t.len() - i,
            {
                assert(decreases_to!(*v => (*v)->Table_0@[i as int].1)) by {
                    assert(decreases_to!(*v => (*v)->Table_0));
                    assert(decreases_to!((*v)->Table_0 => (*v)->Table_0@));
                    assert(decreases_to!((*v)->Table_0@ => (*v)->Table_0@[i as int]));
                    assert(decreases_to!((*v)->Table_0@[i as int] => (*v)->Table_0@[i as int].1));
                }
                let k = copy_string(&t[i].0);
                let c = copy_value(&t[i].1);
                let ghost before = out@;
                out.push((k, c));
                assert(out@.drop_last() =~= before);
                assert(t@.take(i + 1).drop_last() =~= t@.take(i as int));
                i = i + 1;
            }
            assert(t@.take(t.len() as int) =~= t@);
            ConfigValue::Table(out)
        },
    }
}

fn find_key(t: &Vec<(String, ConfigValue)>, k: &String) -> (r: Option<usize>)
    ensures
        match r {
            Some(i) => i < t@.len() && first_index(models(t@), k@) == Some(i as int),
            None => first_index(models(t@), k@) is None,
        },
{
    proof {
        lemma_models_index(t@);
    }
    let ghost m = models(t@);
    let mut i: usize = 0;
    while i < t.len()
        invariant
            i <= t@.len(),
            m == models(t@),
            m.len() == t@.len(),
            forall|j: int| 0 <= j < t@.len() ==> #[trigger] m[j] == (t@[j].0@, model(t@[j].1)),
            forall|j: int| 0 <= j < i ==> (#[trigger] m[j]).0 != k@,
        decreases t.len() - i,
    {
        if str_eq(t[i].0.as_str(), k.as_str()) {
            assert(m[i as int].0 == k@);
            let ghost c = choose|c: int| 0 <= c < m.len() && (#[trigger] m[c]).0 == k@ && forall|j: int| 0 <= j < c ==> (#[trigger] m[j]).0 != k@;
            assert(c == i) by {
                if c < i {
                } else if c > i {
                    assert(m[i as int].0 == k@);
                }
            }
            return Some(i);
        }
        i = i + 1;
    }
    None
}

/// A config merged with the current defaults: every key it lacks is taken
/// from the defaults, and tables present in both are merged in turn.
pub fn merge_config(existing: ConfigValue, default: &ConfigValue) -> (r: ConfigValue)
    ensures
        model(r) == merge_model(model(existing), model(*default)),
    decreases default, 0int,
{
    proof {
        lemma_model_unfold(model(existing), model(*default));
    }
    match existing {
        ConfigValue::Table(et) => match default {
            ConfigValue::Table(dt) => {
                assert(decreases_to!(default => *dt));
                ConfigValue::Table(merge_entries(et, dt))
            },
            ConfigValue::Leaf(_) => ConfigValue::Table(et),
        },
        ConfigValue::Leaf(h) => ConfigValue::Leaf(h),
    }
}

proof fn lemma_first_index_found(tm: Seq<(Seq<char>, ConfigModel)>, key: Seq<char>, i: int)
    requires
        first_index(tm, key) == Some(i),
    ensures
        0 <= i < tm.len(),
        tm[i].0 == key,
{
}

proof fn lemma_step_found(tm: Seq<(Seq<char>, ConfigModel)>, key: Seq<char>, d: ConfigModel, i: int)
    requires
        first_index(tm, key) == Some(i),
    ensures
        merge_step(tm, (key, d)) == tm.update(i, (key, merge_model(tm[i].1, d))),
{
}

proof fn lemma_step_absent(tm: Seq<(Seq<char>, ConfigModel)>, key: Seq<char>, d: ConfigModel)
    requires
        first_index(tm, key) is None,
    ensures
        merge_step(tm, (key, d)) == tm.push((key, d)),
{
}

proof fn lemma_table_unfold(t: Seq<(Seq<char>, ConfigModel)>, d: Seq<(Seq<char>, ConfigModel)>)
    ensures
        d.len() == 0 ==> merge_table(t, d) == t,
        d.len() > 0 ==> merge_table(t, d) == merge_table(merge_step(t, d[0]), d.drop_first()),
{
}

proof fn lemma_model_unfold(e: ConfigModel, d: ConfigModel)
    ensures
        merge_model(e, d) == (match e {
            ConfigModel::Table(et) => match d {
                ConfigModel::Table(dt) => ConfigModel::Table(merge_table(et, dt)),
                ConfigModel::Leaf(_) => e,
            },
            ConfigModel::Leaf(_) => e,
        }),
{
}

/// One default entry merged into a table.
fn merge_one(t: Vec<(String, ConfigValue)>, key: &String, dv: &ConfigValue) -> (r: Vec<(String, ConfigValue)>)
    ensures
        models(r@) == merge_step(models(t@), (key@, model(*dv))),
    decreases dv, 1int,
{
    let ghost tm = models(t@);
    let mut t = t;
    match find_key(&t, key) {
        Some(i) => {
            let ghost t_before = t@;
            let (k, v) = t.remove(i);
            proof {
                lemma_models_at(t_before, i as int);
            }
            let nv = merge_config(v, dv);
            let ghost removed = t@;
            t.insert(i, (k, nv));
            proof {
                assert(removed.insert(i as int, (k, v)) =~= t_before);
                assert(t@ =~= t_before.update(i as int, (k, nv)));
                lemma_models_update(t_before, i as int, (k, nv));
                assert(tm[i as int] == (k@, model(v)));
                lemma_step_found(tm, key@, model(*dv), i as int);
                lemma_first_index_found(tm, key@, i as int);
                assert(models(t@) =~= merge_step(tm, (key@, model(*dv))));
            }
            t
        },
        None => {
            let k = copy_string(key);
            let c = copy_value(dv);
            let ghost before = t@;
            t.push((k, c));
            assert(t@.drop_last() =~= before);
            proof {
                lemma_step_absent(tm, key@, model(*dv));
            }
            t
        },
    }
}

fn merge_entries(et: Vec<(String, ConfigValue)>, dt: &Vec<(String, ConfigValue)>) -> (r: Vec<(String, ConfigValue)>)
    ensures
        models(r@) == merge_table(models(et@), models(dt@)),
    decreases dt, 0int,
{
    let ghost dm = models(dt@);
    proof {
        lemma_models_index(dt@);
        assert(dm.skip(0) =~= dm);
    }
    let mut t = et;
    let mut j: usize = 0;
    while j < dt.len()
        invariant
            j <= dt@.len(),
            dm == models(dt@),
            dm.len() == dt@.len(),
            forall|x: int| 0 <= x < dt@.len() ==> #[trigger] dm[x] == (dt@[x].0@, model(dt@[x].1)),
            merge_table(models(t@), dm.skip(j as int)) == merge_table(models(et@), dm),
        decreases dt.len() - j,
    {
        let ghost rest = dm.skip(j as int);
        assert(rest[0] == dm[j as int]);
        assert(rest.drop_first() =~= dm.skip(j + 1));
        proof {
            lemma_table_unfold(models(t@), rest);
        }
        assert(decreases_to!(dt => dt@[j as int].1)) by {
            assert(decreases_to!(*dt => dt@));
            assert(decreases_to!(dt@ => dt@[j as int]));
            assert(decreases_to!(dt@[j as int] => dt@[j as int].1));
        }
        t = merge_one(t, &dt[j].0, &dt[j].1);
        j = j + 1;
    }
    assert(dm.skip(dt.len() as int) =~= Seq::<(Seq<char>, ConfigModel)>::empty());
    proof {
        lemma_table_unfold(models(t@), dm.skip(dt.len() as int));
    }
    t
}


/// Migrating a table never overwrites or reorders what it holds: every
/// entry keeps its key and place, a value that is not a table keeps its
/// value, and the defaults only add entries after them.
pub proof fn law_merge_keeps_existing(et: Seq<(Seq<char>, ConfigModel)>, dt: Seq<(Seq<char>, ConfigModel)>)
    ensures
        merge_table(et, dt).len() >= et.len(),
        forall|i: int| 0 <= i < et.len() ==> (#[trigger] merge_table(et, dt)[i]).0 == et[i].0,
        forall|i: int| 0 <= i < et.len() && et[i].1 is Leaf ==> (#[trigger] merge_table(et, dt)[i]).1 == et[i].1,
    decreases dt.len(),
{
    if dt.len() > 0 {
        let s = merge_step(et, dt[0]);
        assert(s.len() >= et.len() && forall|i: int| 0 <= i < et.len() ==> (#[trigger] s[i]).0 == et[i].0
            && (et[i].1 is Leaf ==> s[i].1 == et[i].1)) by {
            match first_index(et, dt[0].0) {
                Some(j) => {
                    lemma_first_index_found(et, dt[0].0, j);
                    lemma_step_found(et, dt[0].0, dt[0].1, j);
                    assert(merge_model(et[j].1, dt[0].1) == (match et[j].1 {
                        ConfigModel::Table(a) => match dt[0].1 {
                            ConfigModel::Table(b) => ConfigModel::Table(merge_table(a, b)),
                            ConfigModel::Leaf(_) => et[j].1,
                        },
                        ConfigModel::Leaf(_) => et[j].1,
                    }));
                },
                None => {
                    lemma_step_absent(et, dt[0].0, dt[0].1);
                },
            }
        }
        law_merge_keeps_existing(s, dt.drop_first());
        assert(merge_table(et, dt) == merge_table(s, dt.drop_first()));
    }
}

} // verus!
