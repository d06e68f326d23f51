//! The configuration store: the single optional string value holding
//! the configured path to the editor's executable.
//!
//! The value starts out absent, is overwritten unconditionally by
//! `set_typora_path`, and is read by `get_typora_path` and by the
//! launcher. An empty string may be stored; the launcher treats it as
//! absent (see `crate::launch`). Access is serialized by exclusive
//! ownership: mutation needs `&mut`, so no reader can observe a
//! partially written value.

use vstd::prelude::*;

verus! {

/// Whether a stored value counts as configured: present and non-empty.
pub open spec fn configured(v: Option<Seq<char>>) -> bool {
    match v {
        Some(p) => p.len() > 0,
        None => false,
    }
}

/// The store's state after `set_typora_path(p)`: the old state is
/// discarded and the value is exactly `p`.
pub open spec fn store_after_set(p: Seq<char>) -> Option<Seq<char>> {
    Some(p)
}

/// What `get_typora_path` reports of a store state: the state itself.
pub open spec fn store_read(v: Option<Seq<char>>) -> Option<Seq<char>> {
    v
}

/// The storage-access-failure text, wrapping the OS error `e`: the
/// persistence medium could not be opened or read.
pub open spec fn store_access_error_message(e: Seq<char>) -> Seq<char> {
    "无法访问存储: "@ + e
}

/// The storage-save-failure text, wrapping the OS error `e`: the
/// persistence medium could not be written.
pub open spec fn store_save_error_message(e: Seq<char>) -> Seq<char> {
    "保存失败: "@ + e
}

/// Builds the storage-access-failure error around the OS error text.
pub fn store_access_error(os_error: &str) -> (r: String)
    ensures
        r@ == store_access_error_message(os_error@),
{
    let mut r = String::from_str("无法访问存储: ");
    r.append(os_error);
    r
}

/// Builds the storage-save-failure error around the OS error text.
pub fn store_save_error(os_error: &str) -> (r: String)
    ensures
        r@ == store_save_error_message(os_error@),
{
    let mut r = String::from_str("保存失败: ");
    r.append(os_error);
    r
}

/// Owns the one configuration value. No other component keeps a copy.
pub struct ConfigStore {
    value: Option<String>,
}

impl View for ConfigStore {
    type V = Option<Seq<char>>;

    closed spec fn view(&self) -> Option<Seq<char>> {
        self.value.deep_view()
    }
}

impl ConfigStore {
    /// A fresh store holds no value.
    pub fn new() -> (s: ConfigStore)
        ensures
            s@ is None,
    {
        ConfigStore { value: None }
    }

    /// Returns the current value, or `None` if it was never set.
    /// Cannot fail.
    pub fn get_typora_path(&self) -> (r: Option<String>)
        ensures
            r.deep_view() == store_read(self@),
    {
        match &self.value {
            Some(p) => Some(p.clone()),
            None => None,
        }
    }

    /// Overwrites the value unconditionally; no validation is applied.
    pub fn set_typora_path(&mut self, path: String)
        ensures
            final(self)@ == store_after_set(path@),
    {
        self.value = Some(path);
    }
}

/// Round-trip identity: for every string `p`, reading the store right
/// after `set_typora_path(p)` yields exactly `p`.
pub proof fn lemma_set_get_round_trip(p: Seq<char>)
    ensures
        store_read(store_after_set(p)) == Some(p),
{
}

} // verus!
