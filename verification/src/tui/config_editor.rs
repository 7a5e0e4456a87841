//! The user's config file as the settings sections see it: scalar values
//! addressed by table and key. The application reads the file into a
//! `ConfigEditor` and writes the edited entries back.

use vstd::prelude::*;
use vstd::string::StringExecFns;

use crate::text::str_eq;

verus! {

/// A scalar config value.
#[derive(Debug)]
pub enum ConfigValue {
    Bool(bool),
    Int(i64),
    Str(String),
    /// Any other kind of value (float, array, date, ...).
    Other,
}

/// A config value by its contents.
pub enum ValueView {
    Bool(bool),
    Int(i64),
    Str(Seq<char>),
    Other,
}

/// The contents of a config value.
pub open spec fn value_view(v: ConfigValue) -> ValueView {
    match v {
        ConfigValue::Bool(b) => ValueView::Bool(b),
        ConfigValue::Int(n) => ValueView::Int(n),
        ConfigValue::Str(s) => ValueView::Str(s@),
        ConfigValue::Other => ValueView::Other,
    }
}

/// One `key = value` of the config, in table `table` (`""` for the top
/// level, dotted for nested tables such as `meeting.audio`).
#[derive(Debug)]
pub struct ConfigEntry {
    pub table: String,
    pub key: String,
    pub value: ConfigValue,
}

/// Failure to read or write the config file.
#[derive(Debug)]
pub struct EditorError {
    pub message: String,
}

/// The config file's values, and where it lives.
pub struct ConfigEditor {
    pub path: String,
    pub entries: Vec<ConfigEntry>,
}

/// The entry has table `t` and key `k`.
pub open spec fn has_key(e: ConfigEntry, t: Seq<char>, k: Seq<char>) -> bool {
    e.table@ == t && e.key@ == k
}

/// The value of `t.k`: that of the first entry with that table and key.
pub open spec fn lookup(es: Seq<ConfigEntry>, t: Seq<char>, k: Seq<char>) -> Option<ValueView>
    decreases es.len(),
{
    if es.len() == 0 {
        None
    } else {
        let p = lookup(es.drop_last(), t, k);
        if p is Some {
            p
        } else if has_key(es.last(), t, k) {
            Some(value_view(es.last().value))
        } else {
            None
        }
    }
}

/// A value as a `bool`, if it is one.
pub open spec fn as_bool(v: Option<ValueView>) -> Option<bool> {
    match v {
        Some(ValueView::Bool(b)) => Some(b),
        _ => None,
    }
}

/// A value as an integer, if it is one.
pub open spec fn as_int(v: Option<ValueView>) -> Option<i64> {
    match v {
        Some(ValueView::Int(n)) => Some(n),
        _ => None,
    }
}

/// A value as a string, if it is one.
pub open spec fn as_str(v: Option<ValueView>) -> Option<Seq<char>> {
    match v {
        Some(ValueView::Str(s)) => Some(s),
        _ => None,
    }
}

/// Some entry before index `n` has table `t` and key `k`.
pub open spec fn has_key_before(es: Seq<ConfigEntry>, n: int, t: Seq<char>, k: Seq<char>) -> bool {
    exists|i: int| 0 <= i < n && has_key(#[trigger] es[i], t, k)
}

proof fn lemma_lookup_none(es: Seq<ConfigEntry>, t: Seq<char>, k: Seq<char>)
    ensures
        lookup(es, t, k) is None <==> !has_key_before(es, es.len() as int, t, k),
    decreases es.len(),
{
    if es.len() > 0 {
        lemma_lookup_none(es.drop_last(), t, k);
        if has_key_before(es.drop_last(), es.len() - 1, t, k) {
            let i = choose|i: int| 0 <= i < es.len() - 1 && has_key(#[trigger] es.drop_last()[i], t, k);
            assert(has_key(es[i], t, k));
        }
        if has_key_before(es, es.len() as int, t, k) {
            let i = choose|i: int| 0 <= i < es.len() && has_key(#[trigger] es[i], t, k);
            if i < es.len() - 1 {
                assert(has_key(es.drop_last()[i], t, k));
            }
        }
    }
}

/// Replacing the first entry of key `t.k` by `e` of the same key makes
/// `t.k` look up `e`'s value and leaves every other key as it was.
proof fn lemma_lookup_update(es: Seq<ConfigEntry>, i: int, e: ConfigEntry, t: Seq<char>, k: Seq<char>)
    requires
        0 <= i < es.len(),
        has_key(es[i], t, k),
        has_key(e, t, k),
        !has_key_before(es, i, t, k),
    ensures
        lookup(es.update(i, e), t, k) == Some(value_view(e.value)),
        forall|t2: Seq<char>, k2: Seq<char>|
            (t2 != t || k2 != k) ==> #[trigger] lookup(es.update(i, e), t2, k2) == lookup(
                es,
                t2,
                k2,
            ),
    decreases es.len(),
{
    let u = es.update(i, e);
    if i == es.len() - 1 {
        assert(u.drop_last() =~= es.drop_last());
        lemma_lookup_none(es.drop_last(), t, k);
        assert(!has_key_before(es.drop_last(), es.len() - 1, t, k)) by {
            if has_key_before(es.drop_last(), es.len() - 1, t, k) {
                let j = choose|j: int| 0 <= j < es.len() - 1 && has_key(#[trigger] es.drop_last()[j], t, k);
                assert(has_key(es[j], t, k));
            }
        }
    } else {
        assert(u.drop_last() =~= es.drop_last().update(i, e));
        assert(!has_key_before(es.drop_last(), i, t, k)) by {
            if has_key_before(es.drop_last(), i, t, k) {
                let j = choose|j: int| 0 <= j < i && has_key(#[trigger] es.drop_last()[j], t, k);
                assert(has_key(es[j], t, k));
            }
        }
        lemma_lookup_update(es.drop_last(), i, e, t, k);
        assert(u.last() == es.last());
    }
    assert forall|t2: Seq<char>, k2: Seq<char>| (t2 != t || k2 != k) implies #[trigger] lookup(
        u,
        t2,
        k2,
    ) == lookup(es, t2, k2) by {
        if i == es.len() - 1 {
            assert(u.drop_last() =~= es.drop_last());
        } else {
            assert(u.drop_last() =~= es.drop_last().update(i, e));
            assert(lookup(es.drop_last().update(i, e), t2, k2) == lookup(es.drop_last(), t2, k2));
        }
    }
}

/// Appending an entry of key `t.k` when there is none makes `t.k` look up
/// its value and leaves every other key as it was.
proof fn lemma_lookup_push(es: Seq<ConfigEntry>, e: ConfigEntry, t: Seq<char>, k: Seq<char>)
    requires
        has_key(e, t, k),
        lookup(es, t, k) is None,
    ensures
        lookup(es.push(e), t, k) == Some(value_view(e.value)),
        forall|t2: Seq<char>, k2: Seq<char>|
            (t2 != t || k2 != k) ==> #[trigger] lookup(es.push(e), t2, k2) == lookup(es, t2, k2),
{
    assert(es.push(e).drop_last() =~= es);
}

/// Removing an entry of key `t.k` leaves every other key as it was.
proof fn lemma_lookup_remove(es: Seq<ConfigEntry>, i: int, t: Seq<char>, k: Seq<char>)
    requires
        0 <= i < es.len(),
        has_key(es[i], t, k),
    ensures
        forall|t2: Seq<char>, k2: Seq<char>|
            (t2 != t || k2 != k) ==> #[trigger] lookup(es.remove(i), t2, k2) == lookup(es, t2, k2),
    decreases es.len(),
{
    let r = es.remove(i);
    if i == es.len() - 1 {
        assert(r =~= es.drop_last());
    } else {
        assert(r.drop_last() =~= es.drop_last().remove(i));
        assert(r.last() == es.last());
        lemma_lookup_remove(es.drop_last(), i, t, k);
    }
    assert forall|t2: Seq<char>, k2: Seq<char>| (t2 != t || k2 != k) implies #[trigger] lookup(
        r,
        t2,
        k2,
    ) == lookup(es, t2, k2) by {
        if i == es.len() - 1 {
            assert(r =~= es.drop_last());
        } else {
            assert(r.drop_last() =~= es.drop_last().remove(i));
            assert(lookup(es.drop_last().remove(i), t2, k2) == lookup(es.drop_last(), t2, k2));
        }
    }
}

/// `after` is `before` with at most the values of the keys `ks` changed.
pub open spec fn same_except(
    before: ConfigEditor,
    after: ConfigEditor,
    ks: Seq<(Seq<char>, Seq<char>)>,
) -> bool {
    &&& after.path == before.path
    &&& forall|t: Seq<char>, k: Seq<char>|
        !ks.contains((t, k)) ==> #[trigger] after.value(t, k) == before.value(t, k)
}

/// The string held, or `dflt` when there is none.
pub open spec fn str_or(v: Option<Seq<char>>, dflt: Seq<char>) -> Seq<char> {
    match v {
        Some(s) => s,
        None => dflt,
    }
}

/// The `bool` held, or `dflt` when there is none.
pub open spec fn bool_or(v: Option<bool>, dflt: bool) -> bool {
    match v {
        Some(b) => b,
        None => dflt,
    }
}

impl ConfigEditor {
    /// The value of `table.key`.
    pub open spec fn value(&self, table: Seq<char>, key: Seq<char>) -> Option<ValueView> {
        lookup(self.entries@, table, key)
    }

    /// The index of the first entry of `table.key`.
    fn position(&self, table: &str, key: &str) -> (r: Option<usize>)
        ensures
            match r {
                Some(i) => i < self.entries@.len() && has_key(self.entries@[i as int], table@, key@)
                    && !has_key_before(self.entries@, i as int, table@, key@),
                None => !has_key_before(self.entries@, self.entries@.len() as int, table@, key@),
            },
    {
        let mut i: usize = 0;
        while i < self.entries.len()
            invariant
                i <= self.entries@.len(),
                !has_key_before(self.entries@, i as int, table@, key@),
            decreases self.entries@.len() - i,
        {
            let e = &self.entries[i];
            if str_eq(e.table.as_str(), table) && str_eq(e.key.as_str(), key) {
                return Some(i);
            }
            i = i + 1;
        }
        None
    }

    /// The value of `table.key` (that of its first entry).
    pub fn get(&self, table: &str, key: &str) -> (r: Option<&ConfigValue>)
        ensures
            match r {
                Some(v) => self.value(table@, key@) == Some(value_view(*v)),
                None => self.value(table@, key@) is None,
            },
    {
        proof {
            lemma_lookup_none(self.entries@, table@, key@);
        }
        match self.position(table, key) {
            Some(i) => {
                proof {
                    let es = self.entries@;
                    let u = es.update(i as int, es[i as int]);
                    assert(u =~= es);
                    lemma_lookup_update(es, i as int, es[i as int], table@, key@);
                }
                Some(&self.entries[i].value)
            },
            None => None,
        }
    }

    /// `table.key` as a `bool`, if it holds one.
    pub fn get_bool(&self, table: &str, key: &str) -> (r: Option<bool>)
        ensures
            r == as_bool(self.value(table@, key@)),
    {
        match self.get(table, key) {
            Some(ConfigValue::Bool(b)) => Some(*b),
            _ => None,
        }
    }

    /// `table.key` as an integer, if it holds one.
    pub fn get_int(&self, table: &str, key: &str) -> (r: Option<i64>)
        ensures
            r == as_int(self.value(table@, key@)),
    {
        match self.get(table, key) {
            Some(ConfigValue::Int(n)) => Some(*n),
            _ => None,
        }
    }

    /// `table.key` as a string, if it holds one.
    pub fn get_string(&self, table: &str, key: &str) -> (r: Option<String>)
        ensures
            match r {
                Some(s) => as_str(self.value(table@, key@)) == Some(s@),
                None => as_str(self.value(table@, key@)) is None,
            },
    {
        match self.get(table, key) {
            Some(ConfigValue::Str(s)) => Some(s.clone()),
            _ => None,
        }
    }

    /// Sets `table.key` to `value`.
    pub fn set(&mut self, table: &str, key: &str, value: ConfigValue)
        ensures
            final(self).path == old(self).path,
            final(self).value(table@, key@) == Some(value_view(value)),
            forall|t: Seq<char>, k: Seq<char>|
                (t != table@ || k != key@) ==> #[trigger] final(self).value(t, k) == old(
                    self,
                ).value(t, k),
    {
        let ghost v = value_view(value);
        let e = ConfigEntry { table: String::from_str(table), key: String::from_str(key), value };
        proof {
            lemma_lookup_none(self.entries@, table@, key@);
        }
        match self.position(table, key) {
            Some(i) => {
                proof {
                    lemma_lookup_update(self.entries@, i as int, e, table@, key@);
                }
                self.entries.set(i, e);
            },
            None => {
                proof {
                    lemma_lookup_push(self.entries@, e, table@, key@);
                }
                self.entries.push(e);
            },
        }
    }

    /// Sets `table.key` to a `bool`.
    pub fn set_bool(&mut self, table: &str, key: &str, value: bool)
        ensures
            final(self).path == old(self).path,
            final(self).value(table@, key@) == Some(ValueView::Bool(value)),
            forall|t: Seq<char>, k: Seq<char>|
                (t != table@ || k != key@) ==> #[trigger] final(self).value(t, k) == old(
                    self,
                ).value(t, k),
    {
        self.set(table, key, ConfigValue::Bool(value));
    }

    /// Sets `table.key` to an integer.
    pub fn set_int(&mut self, table: &str, key: &str, value: i64)
        ensures
            final(self).path == old(self).path,
            final(self).value(table@, key@) == Some(ValueView::Int(value)),
            forall|t: Seq<char>, k: Seq<char>|
                (t != table@ || k != key@) ==> #[trigger] final(self).value(t, k) == old(
                    self,
                ).value(t, k),
    {
        self.set(table, key, ConfigValue::Int(value));
    }

    /// Sets `table.key` to a string.
    pub fn set_string(&mut self, table: &str, key: &str, value: &str)
        ensures
            final(self).path == old(self).path,
            final(self).value(table@, key@) == Some(ValueView::Str(value@)),
            forall|t: Seq<char>, k: Seq<char>|
                (t != table@ || k != key@) ==> #[trigger] final(self).value(t, k) == old(
                    self,
                ).value(t, k),
    {
        self.set(table, key, ConfigValue::Str(String::from_str(value)));
    }

    /// Removes `table.key`.
    pub fn unset(&mut self, table: &str, key: &str)
        ensures
            final(self).path == old(self).path,
            final(self).value(table@, key@) is None,
            forall|t: Seq<char>, k: Seq<char>|
                (t != table@ || k != key@) ==> #[trigger] final(self).value(t, k) == old(
                    self,
                ).value(t, k),
    {
        let ghost before_entries = self.entries@;
        let mut i: usize = 0;
        while i < self.entries.len()
            invariant
                self.path == old(self).path,
                before_entries == old(self).entries@,
                i <= self.entries@.len(),
                !has_key_before(self.entries@, i as int, table@, key@),
                forall|t: Seq<char>, k: Seq<char>|
                    (t != table@ || k != key@) ==> #[trigger] lookup(self.entries@, t, k) == lookup(
                        before_entries,
                        t,
                        k,
                    ),
            decreases self.entries@.len() - i,
        {
            if str_eq(self.entries[i].table.as_str(), table) && str_eq(
                self.entries[i].key.as_str(),
                key,
            ) {
                proof {
                    lemma_lookup_remove(self.entries@, i as int, table@, key@);
                }
                let ghost before = self.entries@;
                self.entries.remove(i);
                assert(!has_key_before(self.entries@, i as int, table@, key@)) by {
                    if has_key_before(self.entries@, i as int, table@, key@) {
                        let j = choose|j: int| 0 <= j < i && has_key(#[trigger] self.entries@[j], table@, key@);
                        assert(self.entries@[j] == before[j]);
                    }
                }
            } else {
                i = i + 1;
            }
        }
        proof {
            lemma_lookup_none(self.entries@, table@, key@);
        }
    }

    /// Where the config file lives.
    pub fn path(&self) -> (r: &String)
        ensures
            r == self.path,
    {
        &self.path
    }
}

/// A copy of a value.
pub fn copy_value(v: &ConfigValue) -> (r: ConfigValue)
    ensures
        value_view(r) == value_view(*v),
{
    match v {
        ConfigValue::Bool(b) => ConfigValue::Bool(*b),
        ConfigValue::Int(n) => ConfigValue::Int(*n),
        ConfigValue::Str(s) => ConfigValue::Str(s.clone()),
        ConfigValue::Other => ConfigValue::Other,
    }
}

/// Two values are the same scalar (no other kind of value counts as the
/// same as anything).
pub fn same_value(a: &ConfigValue, b: &ConfigValue) -> (r: bool)
    ensures
        r == (value_view(*a) == value_view(*b) && value_view(*a) != ValueView::Other),
{
    match (a, b) {
        (ConfigValue::Bool(x), ConfigValue::Bool(y)) => *x == *y,
        (ConfigValue::Int(x), ConfigValue::Int(y)) => *x == *y,
        (ConfigValue::Str(x), ConfigValue::Str(y)) => str_eq(x.as_str(), y.as_str()),
        _ => false,
    }
}

/// The keys of the file's scalar entries, in order, that the edited config
/// no longer holds: they are removed from the file.
pub open spec fn removed_keys(file: Seq<ConfigEntry>, edited: ConfigEditor) -> Seq<(Seq<char>, Seq<char>)>
    decreases file.len(),
{
    if file.len() == 0 {
        Seq::empty()
    } else {
        let p = removed_keys(file.drop_last(), edited);
        let e = file.last();
        if value_view(e.value) != ValueView::Other && edited.value(e.table@, e.key@) is None {
            p.push((e.table@, e.key@))
        } else {
            p
        }
    }
}

/// For each entry of `es` in order, the key and the value the edited config
/// gives it, where that is a scalar the file does not already hold there:
/// these are written to the file.
pub open spec fn written_values(
    es: Seq<ConfigEntry>,
    file: ConfigEditor,
    edited: ConfigEditor,
) -> Seq<(Seq<char>, Seq<char>, ValueView)>
    decreases es.len(),
{
    if es.len() == 0 {
        Seq::empty()
    } else {
        let p = written_values(es.drop_last(), file, edited);
        let e = es.last();
        match edited.value(e.table@, e.key@) {
            Some(v) => if v != ValueView::Other && file.value(e.table@, e.key@) != Some(v) {
                p.push((e.table@, e.key@, v))
            } else {
                p
            },
            None => p,
        }
    }
}

/// The changes that bring a config file to an edited config.
#[derive(Debug)]
pub struct ConfigEdits {
    /// Keys to remove, as (table, key).
    pub removed: Vec<(String, String)>,
    /// Values to write.
    pub written: Vec<ConfigEntry>,
}

/// The keys of entries.
pub open spec fn key_views(v: Seq<(String, String)>) -> Seq<(Seq<char>, Seq<char>)> {
    Seq::new(v.len(), |i: int| (v[i].0@, v[i].1@))
}

/// Entries by their keys and values.
pub open spec fn entry_views(v: Seq<ConfigEntry>) -> Seq<(Seq<char>, Seq<char>, ValueView)> {
    Seq::new(v.len(), |i: int| (v[i].table@, v[i].key@, value_view(v[i].value)))
}

/// The changes to make to the config file `file` (as it is now on disk) so
/// that it holds the values of `edited`: the scalar keys that `edited` no
/// longer has are removed, and every key of `edited` whose scalar value
/// differs from the file's is written. Everything else in the file stays.
pub fn config_edits(file: &ConfigEditor, edited: &ConfigEditor) -> (r: ConfigEdits)
    ensures
        key_views(r.removed@) == removed_keys(file.entries@, *edited),
        entry_views(r.written@) == written_values(edited.entries@, *file, *edited),
{
    let mut removed: Vec<(String, String)> = Vec::new();
    let mut i: usize = 0;
    while i < file.entries.len()
        invariant
            i <= file.entries@.len(),
            key_views(removed@) == removed_keys(file.entries@.take(i as int), *edited),
        decreases file.entries@.len() - i,
    {
        let e = &file.entries[i];
        assert(file.entries@.take(i + 1).drop_last() =~= file.entries@.take(i as int));
        assert(file.entries@.take(i + 1).last() == *e);
        let scalar = match e.value {
            ConfigValue::Other => false,
            _ => true,
        };
        if scalar && edited.get(e.table.as_str(), e.key.as_str()).is_none() {
            let ghost before = removed@;
            removed.push((e.table.clone(), e.key.clone()));
            assert(key_views(removed@) =~= key_views(before).push((e.table@, e.key@)));
        }
        i = i + 1;
    }
    assert(file.entries@.take(i as int) =~= file.entries@);
    let mut written: Vec<ConfigEntry> = Vec::new();
    let mut j: usize = 0;
    while j < edited.entries.len()
        invariant
            j <= edited.entries@.len(),
            entry_views(written@) == written_values(edited.entries@.take(j as int), *file, *edited),
        decreases edited.entries@.len() - j,
    {
        let e = &edited.entries[j];
        assert(edited.entries@.take(j + 1).drop_last() =~= edited.entries@.take(j as int));
        assert(edited.entries@.take(j + 1).last() == *e);
        if let Some(v) = edited.get(e.table.as_str(), e.key.as_str()) {
            let scalar = match v {
                ConfigValue::Other => false,
                _ => true,
            };
            let unchanged = match file.get(e.table.as_str(), e.key.as_str()) {
                Some(cur) => same_value(cur, v),
                None => false,
            };
            if scalar && !unchanged {
                let ghost before = written@;
                written.push(
                    ConfigEntry { table: e.table.clone(), key: e.key.clone(), value: copy_value(v) },
                );
                assert(entry_views(written@) =~= entry_views(before).push(
                    (e.table@, e.key@, value_view(*v)),
                ));
            }
        }
        j = j + 1;
    }
    assert(edited.entries@.take(j as int) =~= edited.entries@);
    ConfigEdits { removed, written }
}

} // verus!
