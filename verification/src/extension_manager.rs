//! The extension manager: the set of installed extension records, the
//! lifecycle operations (`add`, `remove`, `enable`, `disable`) on that
//! set, and capability lookup across every enabled extension.
//!
//! The manager's extension list is exactly what the registry file
//! persists (see [`crate::registry`]); `loaded` flags and method
//! tables are runtime-only.  Reading and writing the file itself, and
//! opening native libraries, happen outside this crate's verified
//! core; every decision about the registry's contents is made here.

use vstd::prelude::*;
use crate::extension::Extension;
use crate::extension::ExtensionMethod;
use crate::extension::ExtensionMethodView;
use crate::extension::InstalledExtension;
use crate::extension::InstalledExtensionView;
use crate::extension::MethodDeclaration;
use crate::extension::method_of;
use crate::strutil::str_eq;

verus! {

/// Owns the installed extension records and the path of the registry
/// file they are persisted to.  A copy of the manager copies the
/// records; copied records never count as loaded.
#[derive(Clone)]
pub struct ExtensionManager {
    extensions: Vec<InstalledExtension>,
    config_path: String,
}

/// Mathematical value of an [`ExtensionManager`].
#[verifier::ext_equal]
pub ghost struct ExtensionManagerView {
    pub extensions: Seq<InstalledExtensionView>,
    pub config_path: Seq<char>,
}

impl View for ExtensionManager {
    type V = ExtensionManagerView;

    closed spec fn view(&self) -> ExtensionManagerView {
        ExtensionManagerView {
            extensions: self.extensions@.map_values(|e: InstalledExtension| e@),
            config_path: self.config_path@,
        }
    }
}

/// The methods one record contributes to a lookup for the unified
/// capability name `q`: its matching methods in declaration order if
/// it is enabled, nothing at all otherwise.
pub open spec fn ext_contribution(e: InstalledExtensionView, q: Seq<char>) -> Seq<ExtensionMethodView> {
    if e.enabled {
        e.methods.filter(|m: ExtensionMethodView| m.unified_name == q)
    } else {
        Seq::empty()
    }
}

/// All providers of the capability `q`, across the records in
/// registration order.
pub open spec fn lookup_spec(exts: Seq<InstalledExtensionView>, q: Seq<char>) -> Seq<ExtensionMethodView>
    decreases exts.len(),
{
    if exts.len() == 0 {
        Seq::empty()
    } else {
        lookup_spec(exts.drop_last(), q) + ext_contribution(exts.last(), q)
    }
}

/// Whether some record carries the given extension name.
pub open spec fn has_name(exts: Seq<InstalledExtensionView>, name: Seq<char>) -> bool {
    exists|i: int| 0 <= i < exts.len() && (#[trigger] exts[i]).name == name
}

/// The record list after a removal: every record not named `name`.
pub open spec fn remove_spec(exts: Seq<InstalledExtensionView>, name: Seq<char>) -> Seq<InstalledExtensionView> {
    exts.filter(|e: InstalledExtensionView| e.name != name)
}

/// The record list after flipping the enabled flag of every record
/// named `name` to `value`; all other records are untouched.
pub open spec fn set_enabled_spec(exts: Seq<InstalledExtensionView>, name: Seq<char>, value: bool) -> Seq<InstalledExtensionView> {
    exts.map_values(|e: InstalledExtensionView|
        if e.name == name {
            InstalledExtensionView { enabled: value, ..e }
        } else {
            e
        }
    )
}

impl ExtensionManager {
    /// A manager over an empty registry persisted at `config_path`.
    pub fn new(config_path: String) -> (r: ExtensionManager)
        ensures
            r@.extensions =~= Seq::<InstalledExtensionView>::empty(),
            r@.config_path == config_path@,
    {
        let r = ExtensionManager { extensions: Vec::new(), config_path };
        proof {
            assert(r@.extensions =~= Seq::<InstalledExtensionView>::empty());
        }
        r
    }

    /// A manager over the given records, as read back from the
    /// registry file at `config_path`.
    pub fn from_records(extensions: Vec<InstalledExtension>, config_path: String) -> (r: ExtensionManager)
        ensures
            r@.extensions == extensions@.map_values(|e: InstalledExtension| e@),
            r@.config_path == config_path@,
    {
        ExtensionManager { extensions, config_path }
    }

    /// The installed extension records, in registration order.
    pub fn get_extensions(&self) -> (r: &Vec<InstalledExtension>)
        ensures
            r@.map_values(|e: InstalledExtension| e@) == self@.extensions,
    {
        &self.extensions
    }

    /// The path of the registry file this manager persists to.
    pub fn get_config_path(&self) -> (r: &str)
        ensures
            r@ == self@.config_path,
    {
        self.config_path.as_str()
    }

    /// Appends a record to the in-memory registry, unconditionally.
    pub fn register_extension(&mut self, extension: InstalledExtension)
        ensures
            final(self)@.extensions == old(self)@.extensions.push(extension@),
            final(self)@.config_path == old(self)@.config_path,
    {
        self.extensions.push(extension);
        proof {
            assert(self@.extensions =~= old(self)@.extensions.push(extension@));
        }
    }

    /// Whether a record with the given name is registered.
    pub fn contains_extension(&self, name: &str) -> (r: bool)
        ensures
            r == has_name(self@.extensions, name@),
    {
        let mut i: usize = 0;
        while i < self.extensions.len()
            invariant
                i <= self.extensions@.len(),
                forall|k: int| 0 <= k < i ==> (#[trigger] self@.extensions[k]).name != name@,
            decreases self.extensions@.len() - i,
        {
            if str_eq(self.extensions[i].name.as_str(), name) {
                proof {
                    assert(self@.extensions[i as int] == self.extensions@[i as int]@);
                    assert(self@.extensions[i as int].name == name@);
                }
                return true;
            }
            proof {
                assert(self@.extensions[i as int] == self.extensions@[i as int]@);
            }
            i = i + 1;
        }
        false
    }

    /// Registers a freshly installed extension, disabled and unloaded,
    /// unless a record of the same name already exists; adding a name
    /// twice is a no-op.  Returns whether a record was added.
    pub fn add_extension(&mut self, descriptor: &Extension, definition_path: String, library_path: String) -> (added: bool)
        ensures
            added == !has_name(old(self)@.extensions, descriptor.name@),
            added ==> final(self)@.extensions == old(self)@.extensions.push(
                InstalledExtensionView {
                    name: descriptor.name@,
                    version: descriptor.version@,
                    definition_path: definition_path@,
                    library_path: library_path@,
                    enabled: false,
                    loaded: false,
                    methods: Seq::empty(),
                },
            ),
            !added ==> final(self)@ == old(self)@,
            final(self)@.config_path == old(self)@.config_path,
    {
        if self.contains_extension(descriptor.name.as_str()) {
            return false;
        }
        let record = InstalledExtension::from_descriptor(descriptor, definition_path, library_path);
        self.register_extension(record);
        true
    }

    /// Deletes every record with the given name from the registry.
    /// Removing an unknown name changes nothing.
    pub fn remove_extension(&mut self, name: &str)
        ensures
            final(self)@.extensions == remove_spec(old(self)@.extensions, name@),
            final(self)@.config_path == old(self)@.config_path,
    {
        let ghost oldv = self@.extensions;
        let mut i: usize = 0;
        let ghost k: int = 0;
        while i < self.extensions.len()
            invariant
                0 <= k <= oldv.len(),
                self@.extensions =~= remove_spec(oldv.subrange(0, k), name@) + oldv.subrange(k, oldv.len() as int),
                i == remove_spec(oldv.subrange(0, k), name@).len(),
                self.config_path@ == old(self).config_path@,
            decreases oldv.len() - k,
        {
            let ghost prev = self@.extensions;
            proof {
                assert(self@.extensions[i as int] == oldv[k]);
                assert(self.extensions@[i as int]@ == self@.extensions[i as int]);
            }
            if str_eq(self.extensions[i].name.as_str(), name) {
                let _ = self.extensions.remove(i);
                proof {
                    reveal(Seq::filter);
                    assert(self@.extensions =~= prev.remove(i as int));
                    assert(oldv.subrange(0, k + 1).drop_last() =~= oldv.subrange(0, k));
                    assert(oldv.subrange(0, k + 1).last() == oldv[k]);
                    assert(oldv[k].name == name@);
                    assert(remove_spec(oldv.subrange(0, k + 1), name@)
                        =~= remove_spec(oldv.subrange(0, k), name@));
                    assert(self@.extensions =~= remove_spec(oldv.subrange(0, k + 1), name@)
                        + oldv.subrange(k + 1, oldv.len() as int));
                }
            } else {
                i = i + 1;
                proof {
                    reveal(Seq::filter);
                    assert(oldv.subrange(0, k + 1).drop_last() =~= oldv.subrange(0, k));
                    assert(oldv.subrange(0, k + 1).last() == oldv[k]);
                    assert(oldv[k].name != name@);
                    assert(remove_spec(oldv.subrange(0, k + 1), name@)
                        =~= remove_spec(oldv.subrange(0, k), name@).push(oldv[k]));
                    assert(self@.extensions =~= remove_spec(oldv.subrange(0, k + 1), name@)
                        + oldv.subrange(k + 1, oldv.len() as int));
                }
            }
            proof {
                k = k + 1;
            }
        }
        proof {
            assert(k == oldv.len());
            assert(oldv.subrange(0, oldv.len() as int) =~= oldv);
            assert(oldv.subrange(oldv.len() as int, oldv.len() as int) =~= Seq::<InstalledExtensionView>::empty());
            assert(self@.extensions =~= remove_spec(oldv, name@));
        }
    }

    /// Flips the persisted enabled flag of every record named `name`
    /// to `value`.  No other record is touched, and the in-memory
    /// loaded state is left alone: the flag takes effect at the next
    /// initialization.
    fn set_extension_enabled(&mut self, name: &str, value: bool)
        ensures
            final(self)@.extensions == set_enabled_spec(old(self)@.extensions, name@, value),
            final(self)@.config_path == old(self)@.config_path,
    {
        let ghost oldv = old(self)@.extensions;
        let mut i: usize = 0;
        while i < self.extensions.len()
            invariant
                i <= self.extensions@.len(),
                self.extensions@.len() == oldv.len(),
                self.config_path@ == old(self).config_path@,
                forall|j: int| i <= j < oldv.len() ==> (#[trigger] self@.extensions[j]) == oldv[j],
                forall|j: int| 0 <= j < i ==> (#[trigger] self@.extensions[j]) == (
                    if oldv[j].name == name@ {
                        InstalledExtensionView { enabled: value, ..oldv[j] }
                    } else {
                        oldv[j]
                    }
                ),
            decreases self.extensions@.len() - i,
        {
            let ghost prev = self@.extensions;
            proof {
                assert(self.extensions@[i as int]@ == self@.extensions[i as int]);
            }
            if str_eq(self.extensions[i].name.as_str(), name) {
                self.extensions[i].enabled = value;
                proof {
                    assert(forall|j: int| 0 <= j < prev.len() && j != i ==> (#[trigger] self@.extensions[j]) == prev[j]);
                    assert(self@.extensions[i as int] == (InstalledExtensionView { enabled: value, ..prev[i as int] }));
                }
            }
            i = i + 1;
        }
        proof {
            assert(self@.extensions =~= set_enabled_spec(oldv, name@, value));
        }
    }

    /// Marks every record named `name` enabled in the registry.
    pub fn enable_extension(&mut self, name: &str)
        ensures
            final(self)@.extensions == set_enabled_spec(old(self)@.extensions, name@, true),
            final(self)@.config_path == old(self)@.config_path,
    {
        self.set_extension_enabled(name, true);
    }

    /// Marks every record named `name` disabled in the registry.
    pub fn disable_extension(&mut self, name: &str)
        ensures
            final(self)@.extensions == set_enabled_spec(old(self)@.extensions, name@, false),
            final(self)@.config_path == old(self)@.config_path,
    {
        self.set_extension_enabled(name, false);
    }

    /// Stores the method declarations the loader resolved for the
    /// record at `index` and marks it loaded.
    pub fn record_extension_loaded(&mut self, index: usize, declarations: Vec<MethodDeclaration>)
        requires
            index < old(self)@.extensions.len(),
            old(self)@.extensions[index as int].enabled,
        ensures
            final(self)@.extensions == old(self)@.extensions.update(index as int,
                (InstalledExtensionView {
                    loaded: true,
                    methods: declarations@.map_values(|d: MethodDeclaration|
                        method_of(old(self)@.extensions[index as int].name, d@)),
                    ..old(self)@.extensions[index as int]
                }),
            ),
            final(self)@.config_path == old(self)@.config_path,
    {
        self.extensions[index].record_loaded(declarations);
        proof {
            assert(self@.extensions =~= old(self)@.extensions.update(index as int, self.extensions@[index as int]@));
        }
    }

    /// Marks the record at `index` unloaded, once the loader has torn
    /// its library down.
    pub fn record_extension_unloaded(&mut self, index: usize)
        requires
            index < old(self)@.extensions.len(),
        ensures
            final(self)@.extensions == old(self)@.extensions.update(index as int,
                (InstalledExtensionView { loaded: false, ..old(self)@.extensions[index as int] }),
            ),
            final(self)@.config_path == old(self)@.config_path,
    {
        self.extensions[index].record_unloaded();
        proof {
            assert(self@.extensions =~= old(self)@.extensions.update(index as int, self.extensions@[index as int]@));
        }
    }

    /// The canonical registry-file text persisting this manager's
    /// records.
    pub fn to_registry_json(&self) -> (r: String)
        ensures
            r@ == crate::registry::registry_json(self@.extensions),
    {
        crate::registry::render_registry(&self.extensions)
    }

    /// The manager a registry file's text denotes: a fresh empty
    /// registry for empty text (a new or absent file), the persisted
    /// records when the text is a well-formed registry, and nothing
    /// otherwise — initialization refuses a non-empty file it cannot
    /// read rather than discarding it.
    pub fn from_registry_json(text: &str, config_path: String) -> (r: Option<ExtensionManager>)
        ensures
            match r {
                Option::Some(m) => m@.config_path == config_path@
                    && (match crate::registry::sparse_registry(text@) {
                        Option::Some(records) => m@.extensions == records,
                        Option::None => text@.len() == 0
                            && m@.extensions == Seq::<InstalledExtensionView>::empty(),
                    }),
                Option::None => text@.len() != 0 && crate::registry::sparse_registry(text@) is None,
            },
    {
        if text.is_empty() {
            return Some(ExtensionManager::new(config_path));
        }
        match crate::registry::parse_registry(text) {
            Option::Some(extensions) => Some(ExtensionManager::from_records(extensions, config_path)),
            Option::None => None,
        }
    }

    /// Every provider of the unified capability `unified_method_name`
    /// across all enabled extensions, in stable registration order:
    /// records in the order they were registered, and within one
    /// record the methods in the order the extension declared them.
    /// Disabled extensions contribute nothing.
    pub fn lookup_extension_methods(&self, unified_method_name: &str) -> (r: Vec<ExtensionMethod>)
        ensures
            r@.map_values(|m: ExtensionMethod| m@) == lookup_spec(self@.extensions, unified_method_name@),
    {
        let ghost extsv = self@.extensions;
        let ghost q = unified_method_name@;
        let mut out: Vec<ExtensionMethod> = Vec::new();
        let mut i: usize = 0;
        while i < self.extensions.len()
            invariant
                i <= extsv.len(),
                extsv == self@.extensions,
                self.extensions@.len() == extsv.len(),
                q == unified_method_name@,
                out@.map_values(|m: ExtensionMethod| m@) =~= lookup_spec(extsv.subrange(0, i as int), q),
            decreases extsv.len() - i,
        {
            let e = &self.extensions[i];
            if e.enabled {
                let ghost ms = e@.methods;
                let mut j: usize = 0;
                while j < e.methods.len()
                    invariant
                        j <= ms.len(),
                        ms == e@.methods,
                        e.methods@.len() == ms.len(),
                        e@.enabled,
                        q == unified_method_name@,
                        out@.map_values(|m: ExtensionMethod| m@) =~= lookup_spec(extsv.subrange(0, i as int), q)
                            + ms.subrange(0, j as int).filter(|m: ExtensionMethodView| m.unified_name == q),
                    decreases ms.len() - j,
                {
                    let ghost prev_out = out@.map_values(|m: ExtensionMethod| m@);
                    proof {
                        assert(ms[j as int] == e.methods@[j as int]@);
                    }
                    let matched = str_eq(e.methods[j].unified_name.as_str(), unified_method_name);
                    if matched {
                        out.push(e.methods[j].clone());
                        proof {
                            assert(out@.map_values(|m: ExtensionMethod| m@) =~= prev_out.push(ms[j as int]));
                        }
                    }
                    j = j + 1;
                    proof {
                        reveal(Seq::filter);
                        assert(matched == (ms[j - 1].unified_name == q));
                        assert(ms.subrange(0, j as int).drop_last() =~= ms.subrange(0, j - 1));
                        assert(ms.subrange(0, j as int).last() == ms[j - 1]);
                        if matched {
                            assert(ms.subrange(0, j as int).filter(|m: ExtensionMethodView| m.unified_name == q)
                                == ms.subrange(0, j - 1).filter(|m: ExtensionMethodView| m.unified_name == q).push(ms[j - 1]));
                            assert(out@.map_values(|m: ExtensionMethod| m@) =~= prev_out.push(ms[j - 1]));
                        } else {
                            assert(ms.subrange(0, j as int).filter(|m: ExtensionMethodView| m.unified_name == q)
                                == ms.subrange(0, j - 1).filter(|m: ExtensionMethodView| m.unified_name == q));
                        }
                        assert(out@.map_values(|m: ExtensionMethod| m@) =~= lookup_spec(extsv.subrange(0, i as int), q)
                            + ms.subrange(0, j as int).filter(|m: ExtensionMethodView| m.unified_name == q));
                    }
                }
                proof {
                    assert(ms.subrange(0, ms.len() as int) =~= ms);
                }
            }
            i = i + 1;
            proof {
                assert(extsv.subrange(0, i as int).drop_last() =~= extsv.subrange(0, i - 1));
                assert(extsv.subrange(0, i as int).last() == extsv[i - 1]);
                if !extsv[i - 1].enabled {
                    assert(ext_contribution(extsv[i - 1], q) =~= Seq::<ExtensionMethodView>::empty());
                }
                assert(out@.map_values(|m: ExtensionMethod| m@) =~= lookup_spec(extsv.subrange(0, i as int), q));
            }
        }
        proof {
            assert(extsv.subrange(0, extsv.len() as int) =~= extsv);
        }
        out
    }
}


/// Law: a disabled record contributes nothing to capability lookup.
/// Deleting a disabled record from the registry leaves every lookup
/// result unchanged.
pub proof fn lemma_disabled_record_invisible(exts: Seq<InstalledExtensionView>, k: int, q: Seq<char>)
    requires
        0 <= k < exts.len(),
        !exts[k].enabled,
    ensures
        lookup_spec(exts, q) == lookup_spec(exts.remove(k), q),
    decreases exts.len(),
{
    if k == exts.len() - 1 {
        assert(exts.remove(k) =~= exts.drop_last());
        assert(ext_contribution(exts.last(), q) == Seq::<ExtensionMethodView>::empty());
        assert(lookup_spec(exts, q) =~= lookup_spec(exts.drop_last(), q));
    } else {
        lemma_disabled_record_invisible(exts.drop_last(), k, q);
        assert(exts.remove(k).drop_last() =~= exts.drop_last().remove(k));
        assert(exts.remove(k).last() == exts.last());
        assert(lookup_spec(exts.remove(k), q) == lookup_spec(exts.remove(k).drop_last(), q)
            + ext_contribution(exts.remove(k).last(), q));
        assert(lookup_spec(exts, q) =~= lookup_spec(exts.remove(k), q));
    }
}

/// Law: lookup preserves registration order.  Registering one more
/// record appends its contribution after everything the earlier
/// records provide; in particular, when two enabled records both
/// export a capability, their providers appear in the order the
/// records were registered.
pub proof fn lemma_lookup_registration_order(exts: Seq<InstalledExtensionView>, e: InstalledExtensionView, q: Seq<char>)
    ensures
        lookup_spec(exts.push(e), q) == lookup_spec(exts, q) + ext_contribution(e, q),
{
    assert(exts.push(e).drop_last() =~= exts);
    assert(exts.push(e).last() == e);
}

/// Law: removing a name that no record carries changes nothing.
pub proof fn lemma_remove_absent_name_is_noop(exts: Seq<InstalledExtensionView>, name: Seq<char>)
    requires
        !has_name(exts, name),
    ensures
        remove_spec(exts, name) == exts,
    decreases exts.len(),
{
    reveal(Seq::filter);
    if exts.len() == 0 {
        assert(remove_spec(exts, name) =~= exts);
    } else {
        assert(!has_name(exts.drop_last(), name)) by {
            assert(forall|i: int| 0 <= i < exts.len() ==> (#[trigger] exts[i]).name != name);
        }
        lemma_remove_absent_name_is_noop(exts.drop_last(), name);
        assert(exts[exts.len() - 1].name != name);
        assert(remove_spec(exts, name) =~= exts.drop_last().push(exts.last()));
        assert(exts.drop_last().push(exts.last()) =~= exts);
    }
}

/// Law: registering a record under a fresh name and then removing
/// that name restores the registry to exactly its prior records.
pub proof fn lemma_add_then_remove_restores(exts: Seq<InstalledExtensionView>, record: InstalledExtensionView)
    requires
        !has_name(exts, record.name),
    ensures
        remove_spec(exts.push(record), record.name) == exts,
{
    reveal(Seq::filter);
    assert(exts.push(record).drop_last() =~= exts);
    assert(exts.push(record).last() == record);
    lemma_remove_absent_name_is_noop(exts, record.name);
    assert(remove_spec(exts.push(record), record.name) =~= remove_spec(exts, record.name));
}

/// Law: after enabling a name every record carrying it reads back
/// enabled, a following disable flips exactly those records back, and
/// neither call changes any record with another name.
pub proof fn lemma_enable_then_disable(exts: Seq<InstalledExtensionView>, name: Seq<char>)
    ensures
        forall|k: int| 0 <= k < exts.len() && (#[trigger] exts[k]).name == name
            ==> set_enabled_spec(exts, name, true)[k].enabled,
        forall|k: int| 0 <= k < exts.len() && (#[trigger] exts[k]).name == name
            ==> !set_enabled_spec(set_enabled_spec(exts, name, true), name, false)[k].enabled,
        forall|k: int| 0 <= k < exts.len() && (#[trigger] exts[k]).name != name
            ==> set_enabled_spec(exts, name, true)[k] == exts[k]
                && set_enabled_spec(exts, name, false)[k] == exts[k]
                && set_enabled_spec(set_enabled_spec(exts, name, true), name, false)[k] == exts[k],
{
}

} // verus!
