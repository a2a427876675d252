use vstd::prelude::*;
use vstd::string::StringExecFns;

verus! {

/// One installed component, as the project manifest records it.
#[derive(Debug, Clone)]
pub struct InstalledComponent {
    pub name: String,
    pub version: String,
    pub installed_at: String,
}

/// The palette that generated components start from.
#[derive(Debug, Clone)]
pub struct ColorConfig {
    pub primary: String,
    pub secondary: String,
    pub destructive: String,
    pub muted: String,
    pub accent: String,
}

/// Visual defaults, carried through the manifest unread.
#[derive(Debug, Clone)]
pub struct StyleConfig {
    pub colors: ColorConfig,
    pub radius: String,
}

/// The project manifest: where components go, style defaults, and what was
/// installed.
#[derive(Debug, Clone)]
pub struct Config {
    pub component_path: String,
    pub utils_path: String,
    pub gpui_version: String,
    pub style: StyleConfig,
    pub components: Vec<InstalledComponent>,
}

/// The names of a sequence of install records.
pub open spec fn record_names(v: Seq<InstalledComponent>) -> Seq<Seq<char>> {
    v.map_values(|c: InstalledComponent| c.name@)
}

pub fn default_component_path() -> (r: String)
    ensures
        r@ == "src/components/ui"@,
{
    String::from_str("src/components/ui")
}

pub fn default_utils_path() -> (r: String)
    ensures
        r@ == "src/lib"@,
{
    String::from_str("src/lib")
}

pub fn default_gpui_version() -> (r: String)
    ensures
        r@ == "0.2.1"@,
{
    String::from_str("0.2.1")
}

pub fn default_radius() -> (r: String)
    ensures
        r@ == "px(4.0)"@,
{
    String::from_str("px(4.0)")
}

pub fn default_primary() -> (r: String)
    ensures
        r@ == "rgb(0x3b82f6)"@,
{
    String::from_str("rgb(0x3b82f6)")
}

pub fn default_secondary() -> (r: String)
    ensures
        r@ == "rgb(0x64748b)"@,
{
    String::from_str("rgb(0x64748b)")
}

pub fn default_destructive() -> (r: String)
    ensures
        r@ == "rgb(0xef4444)"@,
{
    String::from_str("rgb(0xef4444)")
}

pub fn default_muted() -> (r: String)
    ensures
        r@ == "rgb(0xf1f5f9)"@,
{
    String::from_str("rgb(0xf1f5f9)")
}

pub fn default_accent() -> (r: String)
    ensures
        r@ == "rgb(0xf0f9ff)"@,
{
    String::from_str("rgb(0xf0f9ff)")
}

impl ColorConfig {
    pub open spec fn is_default(&self) -> bool {
        &&& self.primary@ == "rgb(0x3b82f6)"@
        &&& self.secondary@ == "rgb(0x64748b)"@
        &&& self.destructive@ == "rgb(0xef4444)"@
        &&& self.muted@ == "rgb(0xf1f5f9)"@
        &&& self.accent@ == "rgb(0xf0f9ff)"@
    }
}

impl Default for ColorConfig {
    fn default() -> (r: Self)
        ensures
            r.is_default(),
    {
        ColorConfig {
            primary: default_primary(),
            secondary: default_secondary(),
            destructive: default_destructive(),
            muted: default_muted(),
            accent: default_accent(),
        }
    }
}

impl StyleConfig {
    pub open spec fn is_default(&self) -> bool {
        self.colors.is_default() && self.radius@ == "px(4.0)"@
    }
}

impl Default for StyleConfig {
    fn default() -> (r: Self)
        ensures
            r.is_default(),
    {
        StyleConfig { colors: ColorConfig::default(), radius: default_radius() }
    }
}

/// Relies on `chrono::Utc::now` and `DateTime::to_rfc3339`: the current time as
/// RFC 3339 text. Nothing is promised of its value; `Utc::now` panics only when the
/// system clock reads before 1970.
#[verifier::external_body]
pub(crate) fn now_rfc3339() -> (r: String) {
    chrono::Utc::now().to_rfc3339()
}

impl Config {
    /// A manifest with every default and nothing installed.
    pub fn new() -> (r: Self)
        ensures
            r.component_path@ == "src/components/ui"@,
            r.utils_path@ == "src/lib"@,
            r.gpui_version@ == "0.2.1"@,
            r.style.is_default(),
            r.components@.len() == 0,
    {
        Config {
            component_path: default_component_path(),
            utils_path: default_utils_path(),
            gpui_version: default_gpui_version(),
            style: StyleConfig::default(),
            components: Vec::new(),
        }
    }

    /// Some record is named `name`.
    pub open spec fn has_record(&self, name: Seq<char>) -> bool {
        record_names(self.components@).contains(name)
    }

    /// The first install record named `name`.
    pub fn installed(&self, name: &str) -> (r: Option<&InstalledComponent>)
        ensures
            match r {
                Some(c) => self.has_record(name@) && c.name@ == name@ && exists|i: int|
                    0 <= i < self.components@.len() && self.components@[i] == *c && forall|j: int|
                        0 <= j < i ==> #[trigger] self.components@[j].name@ != name@,
                None => !self.has_record(name@),
            },
    {
        let key = name.to_owned();
        let mut i: usize = 0;
        while i < self.components.len()
            invariant
                i <= self.components.len(),
                key@ == name@,
                forall|j: int| 0 <= j < i ==> #[trigger] self.components@[j].name@ != name@,
            decreases self.components.len() - i,
        {
            if self.components[i].name == key {
                proof {
                    assert(record_names(self.components@)[i as int] == name@);
                }
                return Some(&self.components[i]);
            }
            i = i + 1;
        }
        proof {
            if self.has_record(name@) {
                let k = choose|k: int|
                    0 <= k < record_names(self.components@).len() && record_names(
                        self.components@,
                    )[k] == name@;
                assert(self.components@[k].name@ == name@);
            }
        }
        None
    }

    /// Whether some record is named `name`.
    pub fn is_installed(&self, name: &str) -> (r: bool)
        ensures
            r == self.has_record(name@),
    {
        self.installed(name).is_some()
    }

    /// Appends a record of `name` at `version`, installed at `installed_at`. Records
    /// already present are left alone, duplicates included: keeping one record per
    /// name is the installer's task.
    pub fn record_install(&mut self, name: String, version: String, installed_at: String)
        ensures
            final(self).components@.len() == old(self).components@.len() + 1,
            final(self).components@.drop_last() == old(self).components@,
            final(self).components@.last().name@ == name@,
            final(self).components@.last().version@ == version@,
            final(self).components@.last().installed_at@ == installed_at@,
            final(self).component_path == old(self).component_path,
            final(self).utils_path == old(self).utils_path,
            final(self).gpui_version == old(self).gpui_version,
            final(self).style == old(self).style,
    {
        self.components.push(InstalledComponent { name, version, installed_at });
        proof {
            assert(self.components@.drop_last() =~= old(self).components@);
        }
    }

    /// Appends a record of `name` at `version`, stamped with the current time.
    pub fn add_component(&mut self, name: String, version: String)
        ensures
            final(self).components@.len() == old(self).components@.len() + 1,
            final(self).components@.drop_last() == old(self).components@,
            final(self).components@.last().name@ == name@,
            final(self).components@.last().version@ == version@,
            final(self).component_path == old(self).component_path,
            final(self).utils_path == old(self).utils_path,
            final(self).gpui_version == old(self).gpui_version,
            final(self).style == old(self).style,
    {
        let installed_at = now_rfc3339();
        self.record_install(name, version, installed_at);
    }
}

impl Default for Config {
    fn default() -> (r: Self)
        ensures
            r.component_path@ == "src/components/ui"@,
            r.utils_path@ == "src/lib"@,
            r.gpui_version@ == "0.2.1"@,
            r.style.is_default(),
            r.components@.len() == 0,
    {
        Config::new()
    }
}

} // verus!
