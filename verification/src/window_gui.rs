//! Plain state the graphical front end keeps between frames.

use vstd::prelude::*;

verus! {

/// A loaded value together with the path it came from.
pub struct WithPath<T> {
    pub data: Option<T>,
    pub path: Option<String>,
}

impl<T> WithPath<T> {
    /// Nothing loaded yet.
    pub fn new() -> (r: WithPath<T>)
        ensures
            r.data is None,
            r.path is None,
    {
        WithPath { data: None, path: None }
    }
}

/// Which dataset entry the preview pane shows, and its label.
pub struct MnistPreviewState {
    pub idx: usize,
    pub label: String,
}

/// A cached value recomputed whenever its key changes.
///
/// `key_getter` reads the current key; when it differs from the remembered
/// one, `value_getter` recomputes the cached value for it.
pub struct KeyValueUpdatable<K, V, KeyGetter, ValueGetter> {
    pub old_key: K,
    pub key_getter: KeyGetter,
    pub value_getter: ValueGetter,
    pub value: V,
}

impl<K, V, KeyGetter, ValueGetter> KeyValueUpdatable<K, V, KeyGetter, ValueGetter> where
    KeyGetter: Fn() -> K,
    ValueGetter: Fn(&K) -> V,
    K: PartialEq,
 {
    /// Start from the current key and its value.
    pub fn new(kg: KeyGetter, vg: ValueGetter) -> (r: KeyValueUpdatable<
        K,
        V,
        KeyGetter,
        ValueGetter,
    >)
        requires
            call_requires(kg, ()),
            forall|k: K| call_requires(vg, (&k,)),
        ensures
            r.key_getter == kg,
            r.value_getter == vg,
            call_ensures(kg, (), r.old_key),
            call_ensures(vg, (&r.old_key,), r.value),
    {
        let k = kg();
        let v = vg(&k);
        KeyValueUpdatable { old_key: k, key_getter: kg, value_getter: vg, value: v }
    }

    /// Re-read the key; if it changed, recompute the cached value.
    ///
    /// Either the pair stays as it was, or the new key came from the key
    /// getter and the value was recomputed for it.
    pub fn update_value_if_key_changed(&mut self)
        requires
            call_requires(old(self).key_getter, ()),
            forall|k: K| call_requires(old(self).value_getter, (&k,)),
        ensures
            final(self).key_getter == old(self).key_getter,
            final(self).value_getter == old(self).value_getter,
            (final(self).old_key == old(self).old_key && final(self).value == old(self).value) || (
            call_ensures(old(self).key_getter, (), final(self).old_key) && call_ensures(
                old(self).value_getter,
                (&final(self).old_key,),
                final(self).value,
            )),
    {
        let new_k = (self.key_getter)();
        if new_k != self.old_key {
            let new_v = (self.value_getter)(&new_k);
            self.value = new_v;
            self.old_key = new_k;
        }
    }
}

} // verus!
