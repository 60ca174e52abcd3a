use vstd::prelude::*;
use crate::text::{colon_field, colon_field_of, occurs_at, starts_with, str_eq, trim, trim_end_nul, trim_nul_end, trim_ws};

verus! {

/// The mandatory access control framework active on the host, if any.
#[derive(Debug)]
pub enum MacFramework {
    SeLinux(SeLinuxInfo),
    AppArmor(AppArmorInfo),
    NoneDetected,
}

/// What SELinux says about this process.
#[derive(Debug)]
pub struct SeLinuxInfo {
    pub enforcing: bool,
    pub context: String,
    /// false when the domain (the third `:`-separated field of the context,
    /// its type) is `unconfined_t`; true for any other domain, and when the
    /// context has no such field
    pub confined: bool,
}

/// What AppArmor says about this process.
#[derive(Debug)]
pub struct AppArmorInfo {
    pub profile: String,
    /// false = "unconfined"
    pub confined: bool,
}

/// What the host shows of its security modules, as read from the file system:
/// whether `/sys/fs/selinux/enforce` and `/sys/kernel/security/apparmor`
/// exist, and the contents of `/sys/fs/selinux/enforce` and
/// `/proc/self/attr/current` where they could be read.
#[derive(Debug)]
pub struct HostProbe {
    pub selinux_enforce_present: bool,
    pub apparmor_present: bool,
    pub selinux_enforce: Option<String>,
    pub attr_current: Option<String>,
}

/// The characters of an optional string.
pub open spec fn opt_view(s: Option<String>) -> Option<Seq<char>> {
    match s {
        Some(t) => Some(t@),
        None => None,
    }
}

/// The label in `/proc/self/attr/current`: its contents without trailing
/// NULs and surrounding whitespace, or `<unreadable>`.
pub open spec fn attr_label(current: Option<Seq<char>>) -> Seq<char> {
    match current {
        Some(c) => trim_ws(trim_end_nul(c)),
        None => "<unreadable>"@,
    }
}

/// SELinux is enforcing when the enforce file reads `1`, surrounding
/// whitespace aside.
pub open spec fn enforcing_spec(enforce: Option<Seq<char>>) -> bool {
    match enforce {
        Some(e) => trim_ws(e) == "1"@,
        None => false,
    }
}

fn attr_label_exec(current: &Option<String>) -> (res: String)
    ensures
        res@ == attr_label(opt_view(*current)),
{
    match current {
        Some(c) => {
            let stripped = trim_nul_end(c.as_str());
            trim(stripped.as_str())
        },
        None => String::from_str("<unreadable>"),
    }
}

/// The SELinux context's domain, its third `:`-separated field, is
/// `unconfined_t`.
pub open spec fn unconfined_domain(context: Seq<char>) -> bool {
    colon_field(context, 2) == Some("unconfined_t"@)
}

impl SeLinuxInfo {
    /// `self` is what the given contents of the enforce file and of
    /// `/proc/self/attr/current` say.
    pub open spec fn describes(self, enforce: Option<Seq<char>>, current: Option<Seq<char>>) -> bool {
        &&& self.enforcing == enforcing_spec(enforce)
        &&& self.context@ == attr_label(current)
        &&& self.confined == !unconfined_domain(self.context@)
    }

    /// Interpret the contents of `/sys/fs/selinux/enforce` and
    /// `/proc/self/attr/current` (`None` where unreadable).
    pub fn from_contents(enforce: &Option<String>, current: &Option<String>) -> (res: SeLinuxInfo)
        ensures
            res.describes(opt_view(*enforce), opt_view(*current)),
    {
        let enforcing = match enforce {
            Some(e) => {
                let t = trim(e.as_str());
                str_eq(t.as_str(), "1")
            },
            None => false,
        };
        let context = attr_label_exec(current);
        // Context looks like: unconfined_u:unconfined_r:unconfined_t:s0-s0:c0.c1023
        // The type field (3rd colon-separated component) tells us the domain.
        let confined = match colon_field_of(context.as_str(), 2) {
            Some(domain) => !str_eq(domain.as_str(), "unconfined_t"),
            None => true,
        };
        SeLinuxInfo { enforcing, context, confined }
    }
}

impl AppArmorInfo {
    /// `self` is what the given contents of `/proc/self/attr/current` say.
    pub open spec fn describes(self, current: Option<Seq<char>>) -> bool {
        &&& self.profile@ == attr_label(current)
        &&& self.confined == (self.profile@ != "unconfined"@)
    }

    /// Interpret the contents of `/proc/self/attr/current` (`None` where
    /// unreadable).
    pub fn from_contents(current: &Option<String>) -> (res: AppArmorInfo)
        ensures
            res.describes(opt_view(*current)),
    {
        let profile = attr_label_exec(current);
        let confined = !str_eq(profile.as_str(), "unconfined");
        AppArmorInfo { profile, confined }
    }
}

impl MacFramework {
    /// Whether something may actively block tests: a confined context under
    /// enforcing SELinux, or a confined AppArmor profile.
    pub open spec fn restricts(&self) -> bool {
        match self {
            MacFramework::SeLinux(info) => info.enforcing && info.confined,
            MacFramework::AppArmor(info) => info.confined,
            MacFramework::NoneDetected => false,
        }
    }

    /// The one-line description of the framework.
    pub open spec fn summary_spec(&self) -> Seq<char> {
        match self {
            MacFramework::NoneDetected => "none detected"@,
            MacFramework::SeLinux(i) => "SELinux "@ + (if i.enforcing {
                "enforcing"@
            } else {
                "permissive"@
            }) + " | context: "@ + i.context@,
            MacFramework::AppArmor(i) => "AppArmor active | profile: "@ + i.profile@,
        }
    }

    /// Detect which MAC framework is active, if any: SELinux where its
    /// enforce file exists, else AppArmor where its securityfs directory
    /// exists, else none.
    pub fn detect(probe: &HostProbe) -> (res: MacFramework)
        ensures
            probe.selinux_enforce_present ==> (res matches MacFramework::SeLinux(info)
                && info.describes(opt_view(probe.selinux_enforce), opt_view(probe.attr_current))),
            !probe.selinux_enforce_present && probe.apparmor_present ==> (
            res matches MacFramework::AppArmor(info) && info.describes(opt_view(probe.attr_current))),
            !probe.selinux_enforce_present && !probe.apparmor_present ==> res is NoneDetected,
    {
        if probe.selinux_enforce_present {
            return MacFramework::SeLinux(
                SeLinuxInfo::from_contents(&probe.selinux_enforce, &probe.attr_current),
            );
        }
        if probe.apparmor_present {
            return MacFramework::AppArmor(AppArmorInfo::from_contents(&probe.attr_current));
        }
        MacFramework::NoneDetected
    }

    /// Returns true if something may actively block our tests.
    /// Unconfined contexts under either framework are considered safe.
    pub fn may_restrict(&self) -> (res: bool)
        ensures
            res == self.restricts(),
    {
        match self {
            MacFramework::SeLinux(info) => info.enforcing && info.confined,
            MacFramework::AppArmor(info) => info.confined,
            MacFramework::NoneDetected => false,
        }
    }

    /// A one-line description, such as `SELinux enforcing | context: ...`.
    pub fn summary(&self) -> (res: String)
        ensures
            res@ == self.summary_spec(),
    {
        match self {
            MacFramework::NoneDetected => String::from_str("none detected"),
            MacFramework::SeLinux(i) => {
                let mut s = String::from_str("SELinux ");
                if i.enforcing {
                    s.append("enforcing");
                } else {
                    s.append("permissive");
                }
                s.append(" | context: ");
                s.append(i.context.as_str());
                s
            },
            MacFramework::AppArmor(i) => {
                let mut s = String::from_str("AppArmor active | profile: ");
                s.append(i.profile.as_str());
                s
            },
        }
    }
}

/// Under SELinux, a permissive mode or an `unconfined_t` domain never counts
/// as a restriction.
pub proof fn lemma_selinux_unconfined_does_not_restrict(
    mac: MacFramework,
    enforce: Option<Seq<char>>,
    current: Option<Seq<char>>,
)
    requires
        mac matches MacFramework::SeLinux(info) && info.describes(enforce, current),
    ensures
        !enforcing_spec(enforce) ==> !mac.restricts(),
        unconfined_domain(attr_label(current)) ==> !mac.restricts(),
        enforcing_spec(enforce) && !unconfined_domain(attr_label(current))
            ==> mac.restricts(),
{
}

/// Under AppArmor, exactly the profiles other than `unconfined` restrict.
pub proof fn lemma_apparmor_unconfined_does_not_restrict(mac: MacFramework, current: Option<Seq<char>>)
    requires
        mac matches MacFramework::AppArmor(info) && info.describes(current),
    ensures
        mac.restricts() <==> attr_label(current) != "unconfined"@,
{
}

/// The SELinux summary names the mode by the enforcing flag alone:
/// `SELinux enforcing | context: C` when enforcing, else
/// `SELinux permissive | context: C`; whether the domain is confined does not
/// change it.
pub proof fn lemma_selinux_summary_names_mode(i: SeLinuxInfo, j: SeLinuxInfo)
    ensures
        i.enforcing ==> MacFramework::SeLinux(i).summary_spec() == "SELinux enforcing | context: "@
            + i.context@,
        !i.enforcing ==> MacFramework::SeLinux(i).summary_spec()
            == "SELinux permissive | context: "@ + i.context@,
        i.enforcing == j.enforcing && i.context@ == j.context@ ==> MacFramework::SeLinux(
            i,
        ).summary_spec() == MacFramework::SeLinux(j).summary_spec(),
{
    reveal_strlit("SELinux ");
    reveal_strlit("enforcing");
    reveal_strlit("permissive");
    reveal_strlit(" | context: ");
    reveal_strlit("SELinux enforcing | context: ");
    reveal_strlit("SELinux permissive | context: ");
    assert("SELinux "@ + "enforcing"@ + " | context: "@ =~= "SELinux enforcing | context: "@);
    assert("SELinux "@ + "permissive"@ + " | context: "@ =~= "SELinux permissive | context: "@);
    if i.enforcing {
        assert(MacFramework::SeLinux(i).summary_spec() =~= "SELinux enforcing | context: "@
            + i.context@);
    } else {
        assert(MacFramework::SeLinux(i).summary_spec() =~= "SELinux permissive | context: "@
            + i.context@);
    }
}

/// The summary names the framework first and ends with what identifies the
/// process's context: `AppArmor active | profile: P` for AppArmor, and
/// `none detected` where no framework is active.
pub proof fn lemma_summary_names_framework(mac: MacFramework)
    ensures
        mac matches MacFramework::AppArmor(i) ==> ({
            let s = mac.summary_spec();
            &&& occurs_at(s, "AppArmor active | profile: "@, 0)
            &&& s.subrange(s.len() - i.profile@.len(), s.len() as int) == i.profile@
        }),
        mac matches MacFramework::SeLinux(i) ==> ({
            let s = mac.summary_spec();
            &&& occurs_at(s, "SELinux "@, 0)
            &&& s.subrange(s.len() - i.context@.len(), s.len() as int) == i.context@
        }),
        mac is NoneDetected ==> mac.summary_spec() == "none detected"@,
{
    match mac {
        MacFramework::AppArmor(i) => {
            let s = mac.summary_spec();
            let pre = "AppArmor active | profile: "@;
            assert(s.subrange(0, pre.len() as int) =~= pre);
            assert(s.subrange(s.len() - i.profile@.len(), s.len() as int) =~= i.profile@);
        },
        MacFramework::SeLinux(i) => {
            let s = mac.summary_spec();
            let pre = "SELinux "@;
            assert(s.subrange(0, pre.len() as int) =~= pre);
            assert(s.subrange(s.len() - i.context@.len(), s.len() as int) =~= i.context@);
        },
        MacFramework::NoneDetected => {},
    }
}

/// The `/tmp` warning names the binary's path right after
/// `binary is running from `.
pub proof fn lemma_exec_warning_names_path(path: Seq<char>)
    ensures
        occurs_at(exec_location_warning(path), "binary is running from "@ + path, 0),
{
    let w = exec_location_warning(path);
    let pre = "binary is running from "@ + path;
    assert(w.subrange(0, pre.len() as int) =~= pre);
}

/// `path` is `/tmp` or lies under `/tmp/`.
pub open spec fn under_tmp(path: Seq<char>) -> bool {
    path == "/tmp"@ || occurs_at(path, "/tmp/"@, 0)
}

/// The warning for a binary that runs from `/tmp` on an SELinux host.
pub open spec fn exec_location_warning(path: Seq<char>) -> Seq<char> {
    "binary is running from "@ + path
        + " — SELinux may label this tmp_t which can prevent execution or restrict capabilities. Consider copying to ~/musl-compat-test or /usr/local/bin/ instead."@
}

/// Check whether executing from the current binary's location is likely to be
/// blocked by SELinux's execution restrictions on tmp_t files: on an SELinux
/// host (`selinux_enforce_present`), a binary that runs from `/tmp` (its path
/// `exe`, where `/proc/self/exe` could be read, is `/tmp` or lies under
/// `/tmp/`) gets a warning.
pub fn check_exec_location(selinux_enforce_present: bool, exe: Option<&str>) -> (res: Option<String>)
    ensures
        res is Some <==> (selinux_enforce_present && exe is Some && under_tmp(exe->0@)),
        res matches Some(w) ==> w@ == exec_location_warning(exe->0@),
{
    if !selinux_enforce_present {
        return None;
    }
    match exe {
        None => None,
        Some(path) => {
            if str_eq(path, "/tmp") || starts_with(path, "/tmp/") {
                let mut w = String::from_str("binary is running from ");
                w.append(path);
                w.append(
                    " — SELinux may label this tmp_t which can prevent execution or restrict capabilities. Consider copying to ~/musl-compat-test or /usr/local/bin/ instead.",
                );
                Some(w)
            } else {
                None
            }
        },
    }
}

} // verus!
