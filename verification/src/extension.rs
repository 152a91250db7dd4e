//! Extension descriptors, installed-extension records and the
//! capability methods an extension exports once loaded.
//!
//! An extension is a native library described by a descriptor file.
//! Once registered it is tracked by an [`InstalledExtension`] record:
//! identity, local paths, an `enabled` flag that is persisted, and a
//! `loaded` flag plus a method table that exist only at runtime.  The
//! record never owns the open library handle itself: the unverified
//! loader owns it and reports the exported methods back through
//! [`InstalledExtension::record_loaded`].

use vstd::prelude::*;

verus! {

/// A publishable extension, as described by its descriptor file:
/// identity, where to fetch the artifact, and its checksum.
pub struct Extension {
    /// The name of the extension, unique among registered extensions.
    pub name: String,
    /// The version of the extension.
    pub version: String,
    /// URL or path of the native library artifact.
    pub path: String,
    /// Content hash of the artifact.  Recorded with the descriptor;
    /// the artifact is not checked against it before a load.
    pub checksum: String,
    /// An optional description of the extension.
    pub description: Option<String>,
}

/// One method exported by an extension, announced by the extension's
/// initialization entry point as a triple of names.
pub struct MethodDeclaration {
    /// The unified capability name the method is registered under.
    pub unified_name: String,
    /// The extension's own name for the method.
    pub internal_name: String,
    /// The exported symbol that implements the method.
    pub symbol_name: String,
}

/// A capability method resolved from a loaded extension.  The record
/// holds the names only; the callable symbol stays with the loader
/// that owns the open library handle.
pub struct ExtensionMethod {
    /// The name of the extension providing this method.
    pub extension_name: String,
    /// The unified capability name of the method.
    pub unified_name: String,
    /// The extension-internal name of the method.
    pub internal_name: String,
    /// The exported symbol the loader resolved for this method.
    pub symbol_name: String,
}

/// Mathematical value of a [`MethodDeclaration`].
#[verifier::ext_equal]
pub ghost struct MethodDeclarationView {
    pub unified_name: Seq<char>,
    pub internal_name: Seq<char>,
    pub symbol_name: Seq<char>,
}

/// Mathematical value of an [`ExtensionMethod`].
#[verifier::ext_equal]
pub ghost struct ExtensionMethodView {
    pub extension_name: Seq<char>,
    pub unified_name: Seq<char>,
    pub internal_name: Seq<char>,
    pub symbol_name: Seq<char>,
}

impl View for MethodDeclaration {
    type V = MethodDeclarationView;

    open spec fn view(&self) -> MethodDeclarationView {
        MethodDeclarationView {
            unified_name: self.unified_name@,
            internal_name: self.internal_name@,
            symbol_name: self.symbol_name@,
        }
    }
}

impl View for ExtensionMethod {
    type V = ExtensionMethodView;

    open spec fn view(&self) -> ExtensionMethodView {
        ExtensionMethodView {
            extension_name: self.extension_name@,
            unified_name: self.unified_name@,
            internal_name: self.internal_name@,
            symbol_name: self.symbol_name@,
        }
    }
}

/// The method an extension named `ext` gains for the declaration `d`.
pub open spec fn method_of(ext: Seq<char>, d: MethodDeclarationView) -> ExtensionMethodView {
    ExtensionMethodView {
        extension_name: ext,
        unified_name: d.unified_name,
        internal_name: d.internal_name,
        symbol_name: d.symbol_name,
    }
}

impl Clone for ExtensionMethod {
    fn clone(&self) -> (r: Self)
        ensures
            r@ == self@,
    {
        ExtensionMethod {
            extension_name: self.extension_name.clone(),
            unified_name: self.unified_name.clone(),
            internal_name: self.internal_name.clone(),
            symbol_name: self.symbol_name.clone(),
        }
    }
}

/// An extension already registered locally: identity, local paths,
/// the persisted `enabled` flag, and the runtime-only `loaded` flag
/// and method table.
pub struct InstalledExtension {
    /// The name of the extension.
    pub name: String,
    /// The version of the extension.
    pub version: String,
    /// Path to the local copy of the descriptor file.
    pub definition_path: String,
    /// Path to the local copy of the native library.
    pub library_path: String,
    /// Whether the extension is enabled; persisted.
    pub enabled: bool,
    /// Whether the extension's library is currently loaded; runtime only.
    pub loaded: bool,
    /// Methods the extension exports, in the order it declared them;
    /// runtime only, filled by [`InstalledExtension::record_loaded`].
    pub methods: Vec<ExtensionMethod>,
}

/// Mathematical value of an [`InstalledExtension`].
#[verifier::ext_equal]
pub ghost struct InstalledExtensionView {
    pub name: Seq<char>,
    pub version: Seq<char>,
    pub definition_path: Seq<char>,
    pub library_path: Seq<char>,
    pub enabled: bool,
    pub loaded: bool,
    pub methods: Seq<ExtensionMethodView>,
}

impl View for InstalledExtension {
    type V = InstalledExtensionView;

    open spec fn view(&self) -> InstalledExtensionView {
        InstalledExtensionView {
            name: self.name@,
            version: self.version@,
            definition_path: self.definition_path@,
            library_path: self.library_path@,
            enabled: self.enabled,
            loaded: self.loaded,
            methods: self.methods@.map_values(|m: ExtensionMethod| m@),
        }
    }
}

impl InstalledExtensionView {
    /// The persisted part of a record: runtime-only state reset.
    pub open spec fn persisted(self) -> InstalledExtensionView {
        InstalledExtensionView { loaded: false, methods: Seq::empty(), ..self }
    }

    /// Every method of a well-formed record points back at the record
    /// that owns it.
    pub open spec fn wf(self) -> bool {
        forall|i: int| 0 <= i < self.methods.len() ==> (#[trigger] self.methods[i]).extension_name == self.name
    }
}

impl InstalledExtension {
    /// Creates the record `add` registers for a freshly installed
    /// extension: disabled, not loaded, no methods.
    pub fn from_descriptor(descriptor: &Extension, definition_path: String, library_path: String) -> (r: InstalledExtension)
        ensures
            r@ == (InstalledExtensionView {
                name: descriptor.name@,
                version: descriptor.version@,
                definition_path: definition_path@,
                library_path: library_path@,
                enabled: false,
                loaded: false,
                methods: Seq::empty(),
            }),
            r@.wf(),
    {
        let r = InstalledExtension {
            name: descriptor.name.clone(),
            version: descriptor.version.clone(),
            definition_path,
            library_path,
            enabled: false,
            loaded: false,
            methods: Vec::new(),
        };
        proof {
            assert(r@.methods =~= Seq::<ExtensionMethodView>::empty());
        }
        r
    }

    /// Marks the extension enabled.
    pub fn enable(&mut self)
        ensures
            final(self)@ == (InstalledExtensionView { enabled: true, ..old(self)@ }),
    {
        self.enabled = true;
    }

    /// Marks the extension disabled.
    pub fn disable(&mut self)
        ensures
            final(self)@ == (InstalledExtensionView { enabled: false, ..old(self)@ }),
    {
        self.enabled = false;
    }

    /// Whether the loader should open this extension's library at all:
    /// a disabled extension is never loaded.
    pub fn should_load(&self) -> (r: bool)
        ensures
            r == self@.enabled,
    {
        self.enabled
    }

    /// Fills the method table from the declarations the extension's
    /// initialization entry point returned, in declaration order, and
    /// marks the record loaded.  Only called once the loader has
    /// resolved every declared symbol.
    pub fn record_loaded(&mut self, declarations: Vec<MethodDeclaration>)
        requires
            old(self)@.enabled,
        ensures
            final(self)@ == (InstalledExtensionView {
                loaded: true,
                methods: declarations@.map_values(|d: MethodDeclaration| method_of(old(self)@.name, d@)),
                ..old(self)@
            }),
            final(self)@.wf(),
    {
        let ghost decls = declarations@;
        let mut methods: Vec<ExtensionMethod> = Vec::new();
        let mut i: usize = 0;
        while i < declarations.len()
            invariant
                i <= decls.len(),
                declarations@ == decls,
                methods@.len() == i,
                forall|k: int| 0 <= k < i ==> (#[trigger] methods@[k])@ == method_of(self.name@, decls[k]@),
            decreases decls.len() - i,
        {
            let d = &declarations[i];
            methods.push(ExtensionMethod {
                extension_name: self.name.clone(),
                unified_name: d.unified_name.clone(),
                internal_name: d.internal_name.clone(),
                symbol_name: d.symbol_name.clone(),
            });
            i = i + 1;
        }
        self.methods = methods;
        self.loaded = true;
        proof {
            assert(self@.methods =~= decls.map_values(|d: MethodDeclaration| method_of(old(self)@.name, d@)));
            assert(self@ =~= (InstalledExtensionView {
                loaded: true,
                methods: decls.map_values(|d: MethodDeclaration| method_of(old(self)@.name, d@)),
                ..old(self)@
            }));
        }
    }

    /// Marks the extension no longer loaded, once the loader has torn
    /// the library down.  The method table is kept, as the names stay
    /// meaningful; only the callables died with the handle.
    pub fn record_unloaded(&mut self)
        ensures
            final(self)@ == (InstalledExtensionView { loaded: false, ..old(self)@ }),
    {
        self.loaded = false;
    }
}

impl Clone for InstalledExtension {
    /// Copies the record's persisted identity.  The open library
    /// handle is owned by the loader and is not a shareable resource,
    /// so a copy never counts as loaded.
    fn clone(&self) -> (r: Self)
        ensures
            r@ == (InstalledExtensionView { loaded: false, ..self@ }),
    {
        let mut methods: Vec<ExtensionMethod> = Vec::new();
        let mut i: usize = 0;
        while i < self.methods.len()
            invariant
                i <= self.methods@.len(),
                methods@.len() == i,
                forall|k: int| 0 <= k < i ==> (#[trigger] methods@[k])@ == self.methods@[k]@,
            decreases self.methods@.len() - i,
        {
            methods.push(self.methods[i].clone());
            i = i + 1;
        }
        proof {
            assert(methods@.map_values(|m: ExtensionMethod| m@)
                =~= self.methods@.map_values(|m: ExtensionMethod| m@));
        }
        InstalledExtension {
            name: self.name.clone(),
            version: self.version.clone(),
            definition_path: self.definition_path.clone(),
            library_path: self.library_path.clone(),
            enabled: self.enabled,
            loaded: false,
            methods,
        }
    }
}

} // verus!
