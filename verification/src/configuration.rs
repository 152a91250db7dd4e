//! Endpoint configuration: where requests go, the credentials they
//! carry, and the per-service extension configuration blocks handed to
//! extensions at initialization.

use vstd::prelude::*;
use crate::extension_manager::ExtensionManager;
use crate::strutil::str_eq;

verus! {

/// Basic authentication credentials.
#[derive(Debug, Clone, PartialEq)]
pub struct BasicAuth {
    /// The username.
    pub username: String,
    /// The password, when one is set.
    pub password: Option<String>,
}

/// An API key credential.
#[derive(Debug, Clone, PartialEq)]
pub struct ApiKey {
    /// The prefix sent before the key, when one is set.
    pub prefix: Option<String>,
    /// The key itself.
    pub key: String,
}

/// The configuration block one service passes to one extension:
/// the extension's name, whether the service insists on it, and the
/// extension-specific settings as opaque JSON text.  The one setting
/// this library itself reads, the `security-mode`, is carried
/// alongside.
#[derive(Clone)]
pub struct ServiceExtensionConfiguration {
    /// The name of the extension the block is for.
    pub extension_name: String,
    /// Whether the service requires this extension.
    pub required: bool,
    /// The extension-specific settings, as JSON text; handed to the
    /// extension's initialization entry point unread.
    pub configuration: String,
    /// The block's `security-mode` value, when it has one.
    pub security_mode: Option<String>,
}

/// Mathematical value of a [`ServiceExtensionConfiguration`].
#[verifier::ext_equal]
pub ghost struct ServiceExtensionConfigurationView {
    pub extension_name: Seq<char>,
    pub required: bool,
    pub configuration: Seq<char>,
    pub security_mode: Option<Seq<char>>,
}

impl View for ServiceExtensionConfiguration {
    type V = ServiceExtensionConfigurationView;

    open spec fn view(&self) -> ServiceExtensionConfigurationView {
        ServiceExtensionConfigurationView {
            extension_name: self.extension_name@,
            required: self.required,
            configuration: self.configuration@,
            security_mode: match self.security_mode {
                Option::Some(ref m) => Option::Some(m@),
                Option::None => Option::None,
            },
        }
    }
}

/// A service's extension configuration blocks, in file order.
#[derive(Clone)]
pub struct ServiceExtensionsConfiguration {
    entries: Vec<ServiceExtensionConfiguration>,
}

impl View for ServiceExtensionsConfiguration {
    type V = Seq<ServiceExtensionConfigurationView>;

    closed spec fn view(&self) -> Seq<ServiceExtensionConfigurationView> {
        self.entries@.map_values(|c: ServiceExtensionConfiguration| c@)
    }
}

impl ServiceExtensionsConfiguration {
    /// Wraps the given configuration blocks.
    pub fn new(entries: Vec<ServiceExtensionConfiguration>) -> (r: ServiceExtensionsConfiguration)
        ensures
            r@ == entries@.map_values(|c: ServiceExtensionConfiguration| c@),
    {
        ServiceExtensionsConfiguration { entries }
    }

    /// How many configuration blocks there are.
    pub fn len(&self) -> (r: usize)
        ensures
            r == self@.len(),
    {
        self.entries.len()
    }

    /// The configuration block at the given position.
    pub fn entry_at(&self, i: usize) -> (r: &ServiceExtensionConfiguration)
        requires
            i < self@.len(),
        ensures
            r@ == self@[i as int],
    {
        &self.entries[i]
    }

    /// The position of the first configuration block for the named
    /// extension, if any block carries that name.
    pub fn find_extension_config(&self, name: &str) -> (r: Option<usize>)
        ensures
            match r {
                Option::Some(i) => i < self@.len() && self@[i as int].extension_name == name@
                    && (forall|k: int| 0 <= k < i ==> (#[trigger] self@[k]).extension_name != name@),
                Option::None => forall|k: int|
                    0 <= k < self@.len() ==> (#[trigger] self@[k]).extension_name != name@,
            },
    {
        let mut i: usize = 0;
        while i < self.entries.len()
            invariant
                i <= self.entries@.len(),
                forall|k: int| 0 <= k < i ==> (#[trigger] self@[k]).extension_name != name@,
            decreases self.entries@.len() - i,
        {
            proof {
                assert(self@[i as int] == self.entries@[i as int]@);
            }
            if str_eq(self.entries[i].extension_name.as_str(), name) {
                return Some(i);
            }
            i = i + 1;
        }
        None
    }

    /// The first configuration block for the named extension.  The
    /// caller must know the block exists; initialization treats a
    /// required extension without one as an error before ever calling
    /// this.
    pub fn get_extension_config(&self, name: &str) -> (r: &ServiceExtensionConfiguration)
        requires
            exists|k: int| 0 <= k < self@.len() && (#[trigger] self@[k]).extension_name == name@,
        ensures
            r@.extension_name == name@,
            exists|k: int| 0 <= k < self@.len() && #[trigger] self@[k] == r@,
    {
        match self.find_extension_config(name) {
            Option::Some(i) => {
                proof {
                    assert(self@[i as int] == self.entries@[i as int]@);
                }
                &self.entries[i]
            },
            Option::None => {
                proof {
                    assert(false);
                }
                vstd::pervasive::unreached()
            },
        }
    }
}

/// Whether some record carries the given name and is loaded.
pub open spec fn has_loaded_record(exts: Seq<crate::extension::InstalledExtensionView>, name: Seq<char>) -> bool {
    exists|i: int| 0 <= i < exts.len()
        && (#[trigger] exts[i]).name == name && exts[i].loaded
}

/// Whether one configuration block's demand is unmet: the block
/// requires its extension, but no loaded record carries the name.
pub open spec fn block_unmet(block: ServiceExtensionConfigurationView, exts: Seq<crate::extension::InstalledExtensionView>) -> bool {
    block.required && !has_loaded_record(exts, block.extension_name)
}

impl ServiceExtensionsConfiguration {
    /// The first configuration block that requires its extension while
    /// no loaded record carries the extension's name — the error
    /// initialization reports; nothing when every required extension
    /// is loaded.
    pub fn first_missing_required(&self, extensions: &Vec<crate::extension::InstalledExtension>) -> (r: Option<usize>)
        ensures
            match r {
                Option::Some(i) => i < self@.len()
                    && block_unmet(self@[i as int], extensions@.map_values(|e: crate::extension::InstalledExtension| e@))
                    && (forall|k: int| 0 <= k < i ==> !block_unmet(#[trigger] self@[k],
                        extensions@.map_values(|e: crate::extension::InstalledExtension| e@))),
                Option::None => forall|k: int| 0 <= k < self@.len() ==> !block_unmet(#[trigger] self@[k],
                    extensions@.map_values(|e: crate::extension::InstalledExtension| e@)),
            },
    {
        let ghost extsv = extensions@.map_values(|e: crate::extension::InstalledExtension| e@);
        let mut i: usize = 0;
        while i < self.entries.len()
            invariant
                i <= self.entries@.len(),
                extsv == extensions@.map_values(|e: crate::extension::InstalledExtension| e@),
                forall|k: int| 0 <= k < i ==> !block_unmet(#[trigger] self@[k], extsv),
            decreases self.entries@.len() - i,
        {
            proof {
                assert(self@[i as int] == self.entries@[i as int]@);
            }
            if self.entries[i].required && !loaded_record_exists(extensions, self.entries[i].extension_name.as_str()) {
                return Some(i);
            }
            i = i + 1;
        }
        None
    }
}

/// Whether some record carries the given name and is loaded.
fn loaded_record_exists(extensions: &Vec<crate::extension::InstalledExtension>, name: &str) -> (r: bool)
    ensures
        r == has_loaded_record(extensions@.map_values(|e: crate::extension::InstalledExtension| e@), name@),
{
    let ghost extsv = extensions@.map_values(|e: crate::extension::InstalledExtension| e@);
    let mut i: usize = 0;
    while i < extensions.len()
        invariant
            i <= extensions@.len(),
            extsv == extensions@.map_values(|e: crate::extension::InstalledExtension| e@),
            forall|k: int| 0 <= k < i ==> !((#[trigger] extsv[k]).name == name@ && extsv[k].loaded),
        decreases extensions@.len() - i,
    {
        proof {
            assert(extsv[i as int] == extensions@[i as int]@);
        }
        if extensions[i].loaded && str_eq(extensions[i].name.as_str(), name) {
            proof {
                assert(extsv[i as int].name == name@ && extsv[i as int].loaded);
            }
            return true;
        }
        i = i + 1;
    }
    false
}

/// Where requests go and what credentials they carry, together with
/// the extension machinery the transport consults.
#[derive(Clone)]
pub struct Configuration {
    /// The base path requests are joined onto.
    pub base_path: String,
    /// The user agent header value, when one is set.
    pub user_agent: Option<String>,
    /// Basic authentication credentials, when set.
    pub basic_auth: Option<BasicAuth>,
    /// An OAuth access token, when set.
    pub oauth_access_token: Option<String>,
    /// A bearer access token, when set.
    pub bearer_access_token: Option<String>,
    /// An API key, when set.
    pub api_key: Option<ApiKey>,
    /// The service's extension configuration blocks, when any exist.
    pub extensions: Option<ServiceExtensionsConfiguration>,
    /// The extension manager the transport queries for capabilities.
    pub extensions_manager: ExtensionManager,
}

impl Configuration {
    /// A configuration for the given endpoint and credentials, with no
    /// extensions configured.
    pub fn new(
        base_path: String,
        user_agent: Option<String>,
        basic_auth: Option<BasicAuth>,
        oauth_access_token: Option<String>,
    ) -> (r: Configuration)
        ensures
            r.base_path@ == base_path@,
            r.user_agent == user_agent,
            r.basic_auth == basic_auth,
            r.oauth_access_token == oauth_access_token,
            r.bearer_access_token is None,
            r.api_key is None,
            r.extensions is None,
            r.extensions_manager@.extensions =~= Seq::<crate::extension::InstalledExtensionView>::empty(),
    {
        Configuration {
            base_path,
            user_agent,
            basic_auth,
            oauth_access_token,
            bearer_access_token: None,
            api_key: None,
            extensions: None,
            extensions_manager: ExtensionManager::new(String::new()),
        }
    }

    /// Points the configuration at another base path.
    pub fn set_base_path(&mut self, base_path: &str)
        ensures
            final(self).base_path@ == base_path@,
            final(self).user_agent == old(self).user_agent,
            final(self).basic_auth == old(self).basic_auth,
            final(self).oauth_access_token == old(self).oauth_access_token,
            final(self).bearer_access_token == old(self).bearer_access_token,
            final(self).api_key == old(self).api_key,
            final(self).extensions == old(self).extensions,
            final(self).extensions_manager == old(self).extensions_manager,
    {
        self.base_path = base_path.to_owned();
    }

    /// This configuration with the given user agent.
    pub fn with_user_agent(self, user_agent: String) -> (r: Configuration)
        ensures
            r.user_agent == Option::Some(user_agent),
            r.base_path == self.base_path,
            r.basic_auth == self.basic_auth,
            r.oauth_access_token == self.oauth_access_token,
            r.bearer_access_token == self.bearer_access_token,
            r.api_key == self.api_key,
            r.extensions == self.extensions,
            r.extensions_manager == self.extensions_manager,
    {
        Configuration { user_agent: Some(user_agent), ..self }
    }

    /// This configuration with the given basic authentication
    /// credentials.
    pub fn with_basic_auth(self, basic_auth: BasicAuth) -> (r: Configuration)
        ensures
            r.basic_auth == Option::Some(basic_auth),
            r.base_path == self.base_path,
            r.user_agent == self.user_agent,
            r.oauth_access_token == self.oauth_access_token,
            r.bearer_access_token == self.bearer_access_token,
            r.api_key == self.api_key,
            r.extensions == self.extensions,
            r.extensions_manager == self.extensions_manager,
    {
        Configuration { basic_auth: Some(basic_auth), ..self }
    }

    /// This configuration with the given OAuth access token.
    pub fn with_oauth_access_token(self, oauth_access_token: String) -> (r: Configuration)
        ensures
            r.oauth_access_token == Option::Some(oauth_access_token),
            r.base_path == self.base_path,
            r.user_agent == self.user_agent,
            r.basic_auth == self.basic_auth,
            r.bearer_access_token == self.bearer_access_token,
            r.api_key == self.api_key,
            r.extensions == self.extensions,
            r.extensions_manager == self.extensions_manager,
    {
        Configuration { oauth_access_token: Some(oauth_access_token), ..self }
    }
}

impl Default for Configuration {
    /// The configuration for a server on the local host, with no
    /// credentials and no extensions.
    fn default() -> (r: Configuration)
        ensures
            r.base_path@ == "https://localhost"@,
            r.user_agent matches Option::Some(u) && u@ == "GA4GH-SDK/CLI"@,
            r.basic_auth is None,
            r.oauth_access_token is None,
            r.bearer_access_token is None,
            r.api_key is None,
            r.extensions is None,
    {
        Configuration {
            base_path: "https://localhost".to_owned(),
            user_agent: Some("GA4GH-SDK/CLI".to_owned()),
            basic_auth: None,
            oauth_access_token: None,
            bearer_access_token: None,
            api_key: None,
            extensions: None,
            extensions_manager: ExtensionManager::new(String::new()),
        }
    }
}

} // verus!
