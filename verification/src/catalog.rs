//! The installed-apps catalog: the per-app records, the local settings, and
//! the pure selection and validation rules over them. Reading and writing the
//! catalog file itself is I/O and stays outside the library.

use vstd::prelude::*;
use vstd::string::StringExecFns;
use crate::policy::AppSnapshotTriggerMode;
use crate::text::str_eq;

verus! {

/// A launcher entry packaged with an app: the entry file, its icon, and the
/// extra display-client arguments it launches with.
#[derive(Debug)]
pub struct AppDesktopEntry {
    pub entry: String,
    pub icon: String,
    pub rdp_args: String,
}

/// The mathematical value of a launcher entry.
pub ghost struct AppDesktopEntryView {
    pub entry: Seq<char>,
    pub icon: Seq<char>,
    pub rdp_args: Seq<char>,
}

impl View for AppDesktopEntry {
    type V = AppDesktopEntryView;

    open spec fn view(&self) -> AppDesktopEntryView {
        AppDesktopEntryView { entry: self.entry@, icon: self.icon@, rdp_args: self.rdp_args@ }
    }
}

impl DeepView for AppDesktopEntry {
    type V = AppDesktopEntryView;

    open spec fn deep_view(&self) -> AppDesktopEntryView {
        self.view()
    }
}

impl AppDesktopEntry {
    /// An equal copy.
    pub fn duplicate(&self) -> (r: Self)
        ensures
            r@ == self@,
    {
        AppDesktopEntry {
            entry: self.entry.clone(),
            icon: self.icon.clone(),
            rdp_args: self.rdp_args.clone(),
        }
    }
}

/// One installed app pack, as recorded in the installed-apps catalog.
#[derive(Debug)]
pub struct InstalledAppPackEntry {
    pub id: String,
    pub version: String,
    pub name: String,
    pub image: String,
    pub description: Option<String>,
    pub desktop_entries: Option<Vec<AppDesktopEntry>>,
    pub snapshot_mode: AppSnapshotTriggerMode,
    pub qemu_command: String,
    pub freerdp_command: String,
}

/// The mathematical value of an installed entry.
pub ghost struct InstalledAppPackEntryView {
    pub id: Seq<char>,
    pub version: Seq<char>,
    pub name: Seq<char>,
    pub image: Seq<char>,
    pub description: Option<Seq<char>>,
    pub desktop_entries: Option<Seq<AppDesktopEntryView>>,
    pub snapshot_mode: AppSnapshotTriggerMode,
    pub qemu_command: Seq<char>,
    pub freerdp_command: Seq<char>,
}

impl View for InstalledAppPackEntry {
    type V = InstalledAppPackEntryView;

    open spec fn view(&self) -> InstalledAppPackEntryView {
        InstalledAppPackEntryView {
            id: self.id@,
            version: self.version@,
            name: self.name@,
            image: self.image@,
            description: match self.description {
                Some(d) => Some(d@),
                None => None,
            },
            desktop_entries: match self.desktop_entries {
                Some(v) => Some(v.deep_view()),
                None => None,
            },
            snapshot_mode: self.snapshot_mode,
            qemu_command: self.qemu_command@,
            freerdp_command: self.freerdp_command@,
        }
    }
}

impl DeepView for InstalledAppPackEntry {
    type V = InstalledAppPackEntryView;

    open spec fn deep_view(&self) -> InstalledAppPackEntryView {
        self.view()
    }
}

fn duplicate_opt_string(o: &Option<String>) -> (r: Option<String>)
    ensures
        r == *o,
{
    match o {
        Some(s) => Some(s.clone()),
        None => None,
    }
}

fn duplicate_desktop_entries(o: &Option<Vec<AppDesktopEntry>>) -> (r: Option<Vec<AppDesktopEntry>>)
    ensures
        match o {
            Some(v) => r matches Some(w) && w.deep_view() == v.deep_view(),
            None => r is None,
        },
{
    match o {
        Some(v) => {
            let mut out: Vec<AppDesktopEntry> = Vec::new();
            let n = v.len();
            let mut i: usize = 0;
            while i < n
                invariant
                    n == v@.len(),
                    i <= n,
                    out@.len() == i,
                    out.deep_view() == v.deep_view().take(i as int),
                decreases n - i,
            {
                let ghost dv0 = out.deep_view();
                let ghost ov0 = out@;
                let copy = v[i].duplicate();
                let ghost cv = copy@;
                out.push(copy);
                proof {
                    assert(v.deep_view().len() == n);
                    assert(out@ == ov0.push(copy));
                    assert(out@.len() == i + 1);
                    assert forall|k: int| 0 <= k <= i implies out.deep_view()[k]
                        == v.deep_view().take(i as int + 1)[k] by {
                        if k < i {
                            assert(out@[k] == ov0[k]);
                            assert(out.deep_view()[k] == dv0[k]);
                            assert(dv0[k] == v.deep_view().take(i as int)[k]);
                        } else {
                            assert(out@[k] == copy);
                            assert(out.deep_view()[k] == cv);
                            assert(v.deep_view()[k] == v@[k]@);
                        }
                    }
                    assert(out.deep_view() =~= v.deep_view().take(i as int + 1));
                }
                i += 1;
            }
            proof {
                assert(v.deep_view().take(n as int) =~= v.deep_view());
            }
            Some(out)
        },
        None => None,
    }
}

impl InstalledAppPackEntry {
    /// An equal copy.
    pub fn duplicate(&self) -> (r: Self)
        ensures
            r@ == self@,
    {
        InstalledAppPackEntry {
            id: self.id.clone(),
            version: self.version.clone(),
            name: self.name.clone(),
            image: self.image.clone(),
            description: duplicate_opt_string(&self.description),
            desktop_entries: duplicate_desktop_entries(&self.desktop_entries),
            snapshot_mode: self.snapshot_mode,
            qemu_command: self.qemu_command.clone(),
            freerdp_command: self.freerdp_command.clone(),
        }
    }
}

/// The installed-apps catalog.
#[derive(Debug)]
pub struct InstalledAppPacks {
    pub installed: Vec<InstalledAppPackEntry>,
}

/// A catalog lookup that did not name exactly one entry.
#[derive(Debug, Clone, Copy, PartialEq, Eq, Structural)]
pub enum LookupError {
    /// No entry with that id (and version, when one was given).
    NotInstalled,
    /// Several versions are installed and none was named.
    MultipleVersions,
}

/// Whether an entry answers to this id, and to this version when one is
/// given.
pub open spec fn spec_entry_matches(
    e: InstalledAppPackEntry,
    id: Seq<char>,
    version: Option<Seq<char>>,
) -> bool {
    e.id@ == id && match version {
        Some(v) => e.version@ == v,
        None => true,
    }
}

/// How many catalog entries match.
pub open spec fn spec_match_count(
    s: Seq<InstalledAppPackEntry>,
    id: Seq<char>,
    version: Option<Seq<char>>,
) -> int
    decreases s.len(),
{
    if s.len() == 0 {
        0
    } else {
        (if spec_entry_matches(s[0], id, version) {
            1int
        } else {
            0int
        }) + spec_match_count(s.drop_first(), id, version)
    }
}

/// The first matching catalog entry, if any.
pub open spec fn spec_first_match(
    s: Seq<InstalledAppPackEntry>,
    id: Seq<char>,
    version: Option<Seq<char>>,
) -> Option<InstalledAppPackEntry>
    decreases s.len(),
{
    if s.len() == 0 {
        None
    } else if spec_entry_matches(s[0], id, version) {
        Some(s[0])
    } else {
        spec_first_match(s.drop_first(), id, version)
    }
}

/// A borrowed optional string, seen as its characters.
pub open spec fn spec_opt_version(o: Option<&str>) -> Option<Seq<char>> {
    match o {
        Some(v) => Some(v@),
        None => None,
    }
}

fn entry_matches(e: &InstalledAppPackEntry, id: &str, version: Option<&str>) -> (b: bool)
    ensures
        b == spec_entry_matches(*e, id@, spec_opt_version(version)),
{
    if !str_eq(e.id.as_str(), id) {
        return false;
    }
    match version {
        Some(v) => str_eq(e.version.as_str(), v),
        None => true,
    }
}

/// Settings faults that make the catalog unusable.
#[derive(Debug, Clone, Copy, PartialEq, Eq, Structural)]
pub enum SettingsError {
    /// The app-pack home directory does not exist.
    HomeDirMissing,
    /// The directory for launcher entries does not exist.
    DesktopEntriesDirMissing,
}

/// Where the catalog file, the per-app data and the launcher entries live.
/// The surrounding program resolves these paths once at start.
#[derive(Debug)]
pub struct AppPackLocalSettings {
    pub installed_file: String,
    pub home_dir: String,
    pub desktop_entries_dir: String,
}

impl AppPackLocalSettings {
    /// Check the settings against what the surrounding program found on
    /// disk: both directories must exist, the home directory checked first.
    pub fn check_ok(&self, home_dir_exists: bool, desktop_entries_dir_exists: bool) -> (r: Result<
        (),
        SettingsError,
    >)
        ensures
            r == if !home_dir_exists {
                Err::<(), SettingsError>(SettingsError::HomeDirMissing)
            } else if !desktop_entries_dir_exists {
                Err::<(), SettingsError>(SettingsError::DesktopEntriesDirMissing)
            } else {
                Ok::<(), SettingsError>(())
            },
    {
        if !home_dir_exists {
            Err(SettingsError::HomeDirMissing)
        } else if !desktop_entries_dir_exists {
            Err(SettingsError::DesktopEntriesDirMissing)
        } else {
            Ok(())
        }
    }

    /// The directory holding one installed app's data:
    /// `<home>/<id>/<version>`.
    pub fn get_app_home_dir(&self, app: &InstalledAppPackEntry) -> (r: String)
        ensures
            r@ == self.home_dir@ + "/"@ + app.id@ + "/"@ + app.version@,
    {
        let r = self.home_dir.clone().concat("/").concat(app.id.as_str()).concat("/").concat(
            app.version.as_str(),
        );
        proof {
            assert(r@ =~= self.home_dir@ + "/"@ + app.id@ + "/"@ + app.version@);
        }
        r
    }

    /// Select the one installed entry with this id — and this version, when
    /// one is given. No match and more than one match are distinct errors.
    pub fn get_app_installed(
        &self,
        installed: &InstalledAppPacks,
        id: &str,
        version: Option<&str>,
    ) -> (r: Result<InstalledAppPackEntry, LookupError>)
        ensures
            ({
                let c = spec_match_count(installed.installed@, id@, spec_opt_version(version));
                match r {
                    Ok(e) => c == 1 && (spec_first_match(
                        installed.installed@,
                        id@,
                        spec_opt_version(version),
                    ) matches Some(m) && e@ == m@),
                    Err(LookupError::NotInstalled) => c == 0,
                    Err(LookupError::MultipleVersions) => c >= 2,
                }
            }),
    {
        let s = &installed.installed;
        let n = s.len();
        let ghost all = s@;
        let ghost idv = id@;
        let ghost ver = spec_opt_version(version);
        let mut count: usize = 0;
        let mut found: Option<usize> = None;
        let mut i: usize = 0;
        proof {
            assert(all.skip(0) =~= all);
        }
        while i < n
            invariant
                n == all.len(),
                all == s@,
                idv == id@,
                ver == spec_opt_version(version),
                i <= n,
                count <= i,
                spec_match_count(all, idv, ver) == count + spec_match_count(
                    all.skip(i as int),
                    idv,
                    ver,
                ),
                count == 0 <==> found is None,
                found is None ==> forall|k: int| 0 <= k < i ==> !spec_entry_matches(
                    #[trigger] all[k],
                    idv,
                    ver,
                ),
                found matches Some(k) ==> k < i && spec_entry_matches(all[k as int], idv, ver)
                    && spec_first_match(all, idv, ver) == Some(all[k as int]),
            decreases n - i,
        {
            proof {
                assert(all.skip(i as int)[0] == all[i as int]);
                assert(all.skip(i as int).drop_first() =~= all.skip(i as int + 1));
            }
            if entry_matches(&s[i], id, version) {
                if found.is_none() {
                    proof {
                        lemma_first_match_skip(all, idv, ver, i as int);
                    }
                    found = Some(i);
                }
                count += 1;
            }
            i += 1;
        }
        proof {
            assert(all.skip(n as int) =~= Seq::<InstalledAppPackEntry>::empty());
        }
        if count == 0 {
            Err(LookupError::NotInstalled)
        } else if count > 1 {
            Err(LookupError::MultipleVersions)
        } else {
            match found {
                Some(k) => Ok(s[k].duplicate()),
                None => Err(LookupError::NotInstalled),
            }
        }
    }
}

/// Characters a version may not contain: they would break paths, shells or
/// file names built from it.
pub open spec fn spec_forbidden_version_char(c: char) -> bool {
    ||| c == '/'
    ||| c == '\\'
    ||| c == ':'
    ||| c == '*'
    ||| c == '?'
    ||| c == '"'
    ||| c == '<'
    ||| c == '>'
    ||| c == '|'
    ||| c == ' '
    ||| c == '&'
    ||| c == ';'
    ||| c == '`'
    ||| c == '$'
}

/// Whether every character of a version is allowed.
pub open spec fn spec_valid_version(v: Seq<char>) -> bool {
    forall|i: int| 0 <= i < v.len() ==> !spec_forbidden_version_char(#[trigger] v[i])
}

/// The removal set with every entry of this id gone — all its versions — and
/// the order of the rest kept.
pub open spec fn spec_retain_other_ids(
    s: Seq<InstalledAppPackEntry>,
    id: Seq<char>,
) -> Seq<InstalledAppPackEntry>
    decreases s.len(),
{
    if s.len() == 0 {
        Seq::empty()
    } else {
        let rest = spec_retain_other_ids(s.drop_first(), id);
        if s[0].id@ == id {
            rest
        } else {
            seq![s[0]] + rest
        }
    }
}

/// One packaging-time build configuration (the `AppPack.yaml` a creator
/// edits). Parsing the file is I/O and stays outside the library.
#[derive(Debug)]
pub struct AppBuildConfig {
    pub name: String,
    pub id: String,
    pub version: String,
    pub image: String,
    pub description: Option<String>,
    pub snapshot: AppSnapshotTriggerMode,
    pub readme: AppBuildConfigReadmeConfiguration,
    pub base_command: String,
    pub install_append: String,
    pub configure_append: String,
    pub configure_freerdp: String,
    pub desktop_entries: Option<Vec<AppDesktopEntry>>,
}

/// Where the packaged readme lives inside the bundle.
#[derive(Debug)]
pub struct AppBuildConfigReadmeConfiguration {
    pub folder: String,
    pub index: String,
}

/// The readme folder a configuration gets when it names none.
pub fn default_readme_folder() -> (r: String)
    ensures
        r@ == "readme"@,
{
    String::from_str("readme")
}

/// The readme index file a configuration gets when it names none.
pub fn default_readme_index() -> (r: String)
    ensures
        r@ == "README.md"@,
{
    String::from_str("README.md")
}

impl AppBuildConfig {
    /// Whether the version contains no character that would break paths,
    /// shells or file names built from it.
    pub fn is_valid_version(version: &str) -> (b: bool)
        ensures
            b == spec_valid_version(version@),
    {
        let v = crate::text::str_to_chars(version);
        let n = v.len();
        let mut i: usize = 0;
        while i < n
            invariant
                v@ == version@,
                n == v@.len(),
                i <= n,
                forall|k: int| 0 <= k < i ==> !spec_forbidden_version_char(#[trigger] v@[k]),
            decreases n - i,
        {
            let c = v[i];
            if c == '/' || c == '\\' || c == ':' || c == '*' || c == '?' || c == '"' || c == '<'
                || c == '>' || c == '|' || c == ' ' || c == '&' || c == ';' || c == '`'
                || c == '$' {
                return false;
            }
            i += 1;
        }
        true
    }

    /// The installed-catalog entry this configuration packs into: the boot
    /// command joins the base command and the configure arguments, and the
    /// launcher entries are filled in later by the packer.
    pub fn from(value: AppBuildConfig) -> (r: InstalledAppPackEntry)
        ensures
            r.id@ == value.id@,
            r.version@ == value.version@,
            r.name@ == value.name@,
            r.image@ == value.image@,
            r@.description == value.spec_description(),
            r.desktop_entries is None,
            r.snapshot_mode == value.snapshot,
            r.qemu_command@ == value.base_command@ + " "@ + value.configure_append@,
            r.freerdp_command@ == value.configure_freerdp@,
    {
        let qemu_command = value.base_command.concat(" ").concat(value.configure_append.as_str());
        proof {
            assert(qemu_command@ =~= value.base_command@ + " "@ + value.configure_append@);
        }
        InstalledAppPackEntry {
            id: value.id,
            version: value.version,
            name: value.name,
            image: value.image,
            description: value.description,
            desktop_entries: None,
            snapshot_mode: value.snapshot,
            qemu_command,
            freerdp_command: value.configure_freerdp,
        }
    }
}

impl AppBuildConfig {
    /// The mathematical description view (shared with the entry view).
    pub open spec fn spec_description(&self) -> Option<Seq<char>> {
        match self.description {
            Some(d) => Some(d@),
            None => None,
        }
    }
}

/// Remove every installed entry with this id — all its versions — keeping
/// the order of the rest.
pub fn remove_entries_with_id(installed: &mut InstalledAppPacks, id: &str)
    ensures
        final(installed).installed@ == spec_retain_other_ids(old(installed).installed@, id@),
{
    let ghost orig = installed.installed@;
    let mut i: usize = 0;
    proof {
        assert(orig.skip(0) =~= orig);
        assert(orig.take(0) + spec_retain_other_ids(orig.skip(0), id@) =~= spec_retain_other_ids(
            orig,
            id@,
        ));
    }
    while i < installed.installed.len()
        invariant
            i <= installed.installed@.len(),
            spec_retain_other_ids(orig, id@) == installed.installed@.take(i as int)
                + spec_retain_other_ids(installed.installed@.skip(i as int), id@),
        decreases installed.installed@.len() - i,
    {
        let ghost cur = installed.installed@;
        proof {
            assert(cur.skip(i as int)[0] == cur[i as int]);
            assert(cur.skip(i as int).drop_first() =~= cur.skip(i as int + 1));
        }
        if str_eq(installed.installed[i].id.as_str(), id) {
            let _removed = installed.installed.remove(i);
            proof {
                let now = installed.installed@;
                assert(now == cur.remove(i as int));
                assert(now.take(i as int) =~= cur.take(i as int));
                assert(now.skip(i as int) =~= cur.skip(i as int + 1));
            }
        } else {
            proof {
                assert(cur.take(i as int + 1) =~= cur.take(i as int) + seq![cur[i as int]]);
                assert(cur.take(i as int) + (seq![cur[i as int]] + spec_retain_other_ids(
                    cur.skip(i as int + 1),
                    id@,
                )) =~= cur.take(i as int + 1) + spec_retain_other_ids(
                    cur.skip(i as int + 1),
                    id@,
                ));
            }
            i += 1;
        }
    }
    proof {
        let now = installed.installed@;
        assert(now.take(now.len() as int) =~= now);
        assert(now.skip(now.len() as int) =~= Seq::<InstalledAppPackEntry>::empty());
        assert(now + spec_retain_other_ids(now.skip(now.len() as int), id@) =~= now);
    }
}

/// The snapshot trigger mode as it stands in a packaged index file.
#[derive(Debug, Clone, Copy, PartialEq, Eq, Structural)]
pub enum AppPackSnapshotMode {
    OnClose,
    Never,
    NeverLoad,
}

/// The trigger mode an index-file mode stands for.
pub fn trigger_mode_of(m: AppPackSnapshotMode) -> (r: AppSnapshotTriggerMode)
    ensures
        r == match m {
            AppPackSnapshotMode::OnClose => AppSnapshotTriggerMode::OnClose,
            AppPackSnapshotMode::Never => AppSnapshotTriggerMode::Never,
            AppPackSnapshotMode::NeverLoad => AppSnapshotTriggerMode::NeverLoad,
        },
{
    match m {
        AppPackSnapshotMode::OnClose => AppSnapshotTriggerMode::OnClose,
        AppPackSnapshotMode::Never => AppSnapshotTriggerMode::Never,
        AppPackSnapshotMode::NeverLoad => AppSnapshotTriggerMode::NeverLoad,
    }
}

/// A launcher entry as it stands in a packaged index file.
#[derive(Debug)]
pub struct AppPackDesktopEntry {
    pub entry: String,
    pub icon: String,
    pub rdp_args: String,
}

/// Where the packaged readme lives inside the bundle.
#[derive(Debug)]
pub struct ReadmeConfiguration {
    pub folder: String,
    pub index: String,
}

/// The index file packaged at the root of a distributable bundle. Parsing it
/// is I/O and stays outside the library.
#[derive(Debug)]
pub struct AppPackIndexFile {
    pub name: String,
    pub id: String,
    pub version: String,
    pub image: String,
    pub description: Option<String>,
    pub snapshot: AppPackSnapshotMode,
    pub readme: ReadmeConfiguration,
    pub base_command: String,
    pub install_append: String,
    pub configure_append: String,
    pub freerdp_command: String,
    pub desktop_entries: Option<Vec<AppPackDesktopEntry>>,
}

impl AppPackIndexFile {
    /// The mathematical description view (shared with the entry view).
    pub open spec fn spec_description(&self) -> Option<Seq<char>> {
        match self.description {
            Some(d) => Some(d@),
            None => None,
        }
    }
}

impl InstalledAppPackEntry {
    /// The installed-catalog entry a packaged index file stands for: the
    /// boot command joins the base command and the configure arguments, and
    /// the launcher entries are filled in later by the packer.
    pub fn from_index_file(value: AppPackIndexFile) -> (r: InstalledAppPackEntry)
        ensures
            r.id@ == value.id@,
            r.version@ == value.version@,
            r.name@ == value.name@,
            r.image@ == value.image@,
            r@.description == value.spec_description(),
            r.desktop_entries is None,
            r.snapshot_mode == match value.snapshot {
                AppPackSnapshotMode::OnClose => AppSnapshotTriggerMode::OnClose,
                AppPackSnapshotMode::Never => AppSnapshotTriggerMode::Never,
                AppPackSnapshotMode::NeverLoad => AppSnapshotTriggerMode::NeverLoad,
            },
            r.qemu_command@ == value.base_command@ + " "@ + value.configure_append@,
            r.freerdp_command@ == value.freerdp_command@,
    {
        let qemu_command = value.base_command.concat(" ").concat(value.configure_append.as_str());
        proof {
            assert(qemu_command@ =~= value.base_command@ + " "@ + value.configure_append@);
        }
        InstalledAppPackEntry {
            id: value.id,
            version: value.version,
            name: value.name,
            image: value.image,
            description: value.description,
            desktop_entries: None,
            snapshot_mode: trigger_mode_of(value.snapshot),
            qemu_command,
            freerdp_command: value.freerdp_command,
        }
    }
}

/// Whether some installed entry carries this id.
pub open spec fn spec_has_id(s: Seq<InstalledAppPackEntry>, id: Seq<char>) -> bool {
    exists|i: int| 0 <= i < s.len() && s[i].id@ == id
}

fn has_id(installed: &InstalledAppPacks, id: &str) -> (b: bool)
    ensures
        b == spec_has_id(installed.installed@, id@),
{
    let s = &installed.installed;
    let n = s.len();
    let mut i: usize = 0;
    while i < n
        invariant
            n == s@.len(),
            s@ == installed.installed@,
            i <= n,
            forall|k: int| 0 <= k < i ==> #[trigger] s@[k].id@ != id@,
        decreases n - i,
    {
        if str_eq(s[i].id.as_str(), id) {
            return true;
        }
        i += 1;
    }
    false
}

/// The archive member names an installed entry needs: its disk image, then
/// each launcher entry file and its icon under `desktop/`.
pub open spec fn spec_desktop_files(entries: Seq<AppDesktopEntryView>) -> Seq<Seq<char>> {
    Seq::new(
        2 * entries.len(),
        |k: int|
            if k % 2 == 0 {
                "desktop/"@ + entries[k / 2].entry
            } else {
                "desktop/"@ + entries[k / 2].icon
            },
    )
}

/// The archive member names an installed entry needs.
pub open spec fn spec_required_files(e: InstalledAppPackEntry) -> Seq<Seq<char>> {
    seq![e.image@] + (match e.desktop_entries {
        Some(v) => spec_desktop_files(v.deep_view()),
        None => Seq::empty(),
    })
}

/// Build the archive member names an installed entry needs.
pub fn required_archive_files(e: &InstalledAppPackEntry) -> (out: Vec<String>)
    ensures
        out.deep_view() == spec_required_files(*e),
{
    let mut out: Vec<String> = Vec::new();
    out.push(e.image.clone());
    proof {
        assert(out.deep_view() =~= seq![e.image@]);
    }
    match &e.desktop_entries {
        None => {
            proof {
                assert(out.deep_view() =~= spec_required_files(*e));
            }
            out
        },
        Some(entries) => {
            let ghost dv = entries.deep_view();
            let n = entries.len();
            let mut i: usize = 0;
            proof {
                assert(out.deep_view() =~= seq![e.image@] + spec_desktop_files(dv).take(0));
            }
            while i < n
                invariant
                    n == entries@.len(),
                    dv == entries.deep_view(),
                    i <= n,
                    out@.len() == 1 + 2 * i,
                    out.deep_view() == seq![e.image@] + spec_desktop_files(dv).take(2 * i),
                decreases n - i,
            {
                let ghost dv0 = out.deep_view();
                let ghost ov0 = out@;
                let f1 = String::from_str("desktop/").concat(entries[i].entry.as_str());
                let f2 = String::from_str("desktop/").concat(entries[i].icon.as_str());
                let ghost f1v = f1@;
                let ghost f2v = f2@;
                out.push(f1);
                out.push(f2);
                proof {
                    assert(out@.len() == ov0.len() + 2);
                    assert(dv[i as int] == entries@[i as int]@);
                    assert(f1v == "desktop/"@ + dv[i as int].entry);
                    assert(f2v == "desktop/"@ + dv[i as int].icon);
                    assert(spec_desktop_files(dv).len() == 2 * n);
                    assert forall|k: int| 0 <= k < out@.len() implies out.deep_view()[k] == (seq![
                        e.image@,
                    ] + spec_desktop_files(dv).take(2 * (i + 1)))[k] by {
                        if k < ov0.len() {
                            assert(out@[k] == ov0[k]);
                            assert(out.deep_view()[k] == dv0[k]);
                        } else if k == ov0.len() {
                            assert(out@[k]@ == f1v);
                            assert(spec_desktop_files(dv)[2 * i] == "desktop/"@ + dv[i as int].entry);
                        } else {
                            assert(out@[k]@ == f2v);
                            assert(spec_desktop_files(dv)[2 * i + 1] == "desktop/"@ + dv[
                                i as int
                            ].icon);
                        }
                    }
                    assert(out.deep_view() =~= seq![e.image@] + spec_desktop_files(dv).take(
                        2 * (i + 1),
                    ));
                }
                i += 1;
            }
            proof {
                assert(spec_desktop_files(dv).take(2 * (n as int)) =~= spec_desktop_files(dv));
            }
            out
        },
    }
}

/// Why a distributable bundle cannot be installed.
#[derive(Debug, PartialEq, Eq)]
pub enum InstallError {
    /// The packaged version contains a forbidden character.
    InvalidVersion,
    /// An app with this id is already installed.
    AlreadyInstalled,
    /// These required archive members are absent.
    MissingFiles(Vec<String>),
}

/// The required names that the archive does not hold, in order.
pub open spec fn spec_missing_files(
    required: Seq<Seq<char>>,
    present: Seq<Seq<char>>,
) -> Seq<Seq<char>>
    decreases required.len(),
{
    if required.len() == 0 {
        Seq::empty()
    } else {
        let rest = spec_missing_files(required.drop_first(), present);
        if crate::text::spec_contains_str(present, required[0]) {
            rest
        } else {
            seq![required[0]] + rest
        }
    }
}

/// Check a bundle against the catalog and the archive's member list: the
/// version must be clean, the id not yet installed, and every required member
/// present.
pub fn check_valid_app_pack(
    new_entry: &InstalledAppPackEntry,
    installed: &InstalledAppPacks,
    present_files: &Vec<String>,
) -> (r: Result<(), InstallError>)
    ensures
        !spec_valid_version(new_entry.version@) ==> r == Err::<(), InstallError>(
            InstallError::InvalidVersion,
        ),
        spec_valid_version(new_entry.version@) && spec_has_id(
            installed.installed@,
            new_entry.id@,
        ) ==> r == Err::<(), InstallError>(InstallError::AlreadyInstalled),
        spec_valid_version(new_entry.version@) && !spec_has_id(
            installed.installed@,
            new_entry.id@,
        ) ==> ({
            let missing = spec_missing_files(
                spec_required_files(*new_entry),
                present_files.deep_view(),
            );
            match r {
                Ok(_) => missing.len() == 0,
                Err(InstallError::MissingFiles(m)) => missing.len() > 0 && m.deep_view()
                    == missing,
                Err(_) => false,
            }
        }),
{
    if !AppBuildConfig::is_valid_version(new_entry.version.as_str()) {
        return Err(InstallError::InvalidVersion);
    }
    if has_id(installed, new_entry.id.as_str()) {
        return Err(InstallError::AlreadyInstalled);
    }
    let required = required_archive_files(new_entry);
    let ghost reqv = required.deep_view();
    let ghost presv = present_files.deep_view();
    let mut missing: Vec<String> = Vec::new();
    let n = required.len();
    let mut i: usize = 0;
    proof {
        assert(reqv.skip(0) =~= reqv);
        assert(missing.deep_view() + spec_missing_files(reqv.skip(0), presv) =~= spec_missing_files(
            reqv,
            presv,
        ));
    }
    while i < n
        invariant
            n == required@.len(),
            reqv == required.deep_view(),
            presv == present_files.deep_view(),
            i <= n,
            missing.deep_view() + spec_missing_files(reqv.skip(i as int), presv)
                == spec_missing_files(reqv, presv),
        decreases n - i,
    {
        proof {
            assert(reqv.skip(i as int)[0] == reqv[i as int]);
            assert(reqv.skip(i as int).drop_first() =~= reqv.skip(i as int + 1));
            assert(reqv[i as int] == required@[i as int]@);
        }
        let ghost m0 = missing.deep_view();
        let ghost mv0 = missing@;
        if !crate::text::contains_str(present_files, required[i].as_str()) {
            let copy = required[i].clone();
            missing.push(copy);
            proof {
                assert forall|k: int| 0 <= k < missing@.len() implies missing.deep_view()[k] == (m0
                    + seq![reqv[i as int]])[k] by {
                    if k < mv0.len() {
                        assert(missing@[k] == mv0[k]);
                        assert(missing.deep_view()[k] == m0[k]);
                    } else {
                        assert(missing@[k]@ == reqv[i as int]);
                    }
                }
                assert(missing.deep_view() =~= m0 + seq![reqv[i as int]]);
                assert(missing.deep_view() + spec_missing_files(reqv.skip(i as int + 1), presv)
                    =~= (m0 + (seq![reqv[i as int]] + spec_missing_files(
                    reqv.skip(i as int + 1),
                    presv,
                ))));
            }
        }
        i += 1;
    }
    proof {
        assert(reqv.skip(n as int) =~= Seq::<Seq<char>>::empty());
        assert(missing.deep_view() + spec_missing_files(reqv.skip(n as int), presv)
            =~= missing.deep_view());
    }
    if missing.len() == 0 {
        proof {
            assert(missing.deep_view().len() == 0);
        }
        Ok(())
    } else {
        proof {
            assert(missing.deep_view().len() > 0);
        }
        Err(InstallError::MissingFiles(missing))
    }
}

/// The file name of a distributable bundle: `<id>_<version>.zip`.
pub fn bundle_file_name(id: &str, version: &str) -> (r: String)
    ensures
        r@ == id@ + "_"@ + version@ + ".zip"@,
{
    let r = String::from_str(id).concat("_").concat(version).concat(".zip");
    proof {
        assert(r@ =~= id@ + "_"@ + version@ + ".zip"@);
    }
    r
}

/// Where a launcher entry file is installed:
/// `<desktop dir>/<version>_<entry>`.
pub fn desktop_entry_dest(desktop_entries_dir: &str, version: &str, entry: &str) -> (r: String)
    ensures
        r@ == desktop_entries_dir@ + "/"@ + version@ + "_"@ + entry@,
{
    let r = String::from_str(desktop_entries_dir).concat("/").concat(version).concat("_").concat(
        entry,
    );
    proof {
        assert(r@ =~= desktop_entries_dir@ + "/"@ + version@ + "_"@ + entry@);
    }
    r
}

/// Where a file of an installed app lives: `<app home>/<name>`.
pub fn app_file_dest(app_home: &str, name: &str) -> (r: String)
    ensures
        r@ == app_home@ + "/"@ + name@,
{
    let r = String::from_str(app_home).concat("/").concat(name);
    proof {
        assert(r@ =~= app_home@ + "/"@ + name@);
    }
    r
}

/// Where an installed icon lives: `<app home>/desktop/<icon>`.
pub fn icon_dest(app_home: &str, icon: &str) -> (r: String)
    ensures
        r@ == app_home@ + "/desktop/"@ + icon@,
{
    let r = String::from_str(app_home).concat("/desktop/").concat(icon);
    proof {
        assert(r@ =~= app_home@ + "/desktop/"@ + icon@);
    }
    r
}

/// The archive member name of a packaged launcher file: `desktop/<name>`.
pub fn archive_member_for_entry(name: &str) -> (r: String)
    ensures
        r@ == "desktop/"@ + name@,
{
    let r = String::from_str("desktop/").concat(name);
    proof {
        assert(r@ =~= "desktop/"@ + name@);
    }
    r
}

/// What stands after the last '/' of a path (the whole path when it has
/// none).
pub open spec fn spec_after_last_slash(s: Seq<char>) -> Seq<char>
    decreases s.len(),
    via spec_after_last_slash_decreases
{
    match crate::template::spec_find_from(s, "/"@, 0) {
        None => s,
        Some(i) => spec_after_last_slash(s.skip(i + 1)),
    }
}

#[via_fn]
proof fn spec_after_last_slash_decreases(s: Seq<char>) {
    crate::template::lemma_find_from_props(s, "/"@, 0);
}

/// The file name a path ends in: what stands after its last '/', or nothing
/// when the path ends in one (or is empty).
pub fn path_file_name(p: &str) -> (r: Option<String>)
    ensures
        match r {
            Some(name) => name@ == spec_after_last_slash(p@) && name@.len() > 0,
            None => spec_after_last_slash(p@).len() == 0,
        },
{
    proof {
        reveal_strlit("/");
    }
    let v = crate::text::str_to_chars(p);
    let n = v.len();
    let mut k: usize = n;
    while k > 0 && !char_at_is_slash(&v, k - 1)
        invariant
            n == v@.len(),
            k <= n,
            forall|m: int| k <= m < n ==> v@[m] != '/',
        decreases k,
    {
        k -= 1;
    }
    proof {
        lemma_after_last_slash_at(v@, k as int);
    }
    if k == n {
        None
    } else {
        let name_chars = crate::template::copy_range(&v, k, n);
        proof {
            assert(name_chars@ =~= v@.skip(k as int));
        }
        Some(crate::text::string_from_chars(&name_chars))
    }
}

fn char_at_is_slash(v: &Vec<char>, i: usize) -> (b: bool)
    requires
        i < v@.len(),
    ensures
        b == (v@[i as int] == '/'),
{
    v[i] == '/'
}

/// When nothing after position `k` is a '/', and `k` is the start or follows
/// one, the tail from `k` is what stands after the last '/'.
proof fn lemma_after_last_slash_at(s: Seq<char>, k: int)
    requires
        0 <= k <= s.len(),
        forall|m: int| k <= m < s.len() ==> s[m] != '/',
        k > 0 ==> s[k - 1] == '/',
    ensures
        spec_after_last_slash(s) == s.skip(k),
    decreases s.len(),
{
    reveal_strlit("/");
    crate::template::lemma_find_from_props(s, "/"@, 0);
    match crate::template::spec_find_from(s, "/"@, 0) {
        None => {
            assert(k == 0) by {
                if k > 0 {
                    assert(crate::template::spec_match_at(s, "/"@, k - 1)) by {
                        assert(s.subrange(k - 1, k) =~= "/"@);
                    }
                }
            }
            assert(s.skip(0) =~= s);
        },
        Some(i) => {
            assert(s[i] == '/') by {
                assert(s.subrange(i, i + 1)[0] == s[i]);
            }
            assert(i < k);
            let s2 = s.skip(i + 1);
            assert forall|m: int| k - i - 1 <= m < s2.len() implies s2[m] != '/' by {
                assert(s2[m] == s[i + 1 + m]);
            }
            if k - i - 1 > 0 {
                assert(s2[k - i - 2] == s[k - 1]);
            }
            lemma_after_last_slash_at(s2, k - i - 1);
            assert(s2.skip(k - i - 1) =~= s.skip(k));
        },
    }
}

/// While no entry of the prefix matches, the first match of the whole catalog
/// is the first match of the rest.
proof fn lemma_first_match_skip(
    s: Seq<InstalledAppPackEntry>,
    id: Seq<char>,
    version: Option<Seq<char>>,
    i: int,
)
    requires
        0 <= i <= s.len(),
        forall|k: int| 0 <= k < i ==> !spec_entry_matches(#[trigger] s[k], id, version),
    ensures
        spec_first_match(s, id, version) == spec_first_match(s.skip(i), id, version),
    decreases i,
{
    if i == 0 {
        assert(s.skip(0) =~= s);
    } else {
        assert(!spec_entry_matches(s[0], id, version));
        lemma_first_match_skip(s.drop_first(), id, version, i - 1);
        assert forall|k: int| 0 <= k < i - 1 implies !spec_entry_matches(
            #[trigger] s.drop_first()[k],
            id,
            version,
        ) by {
            assert(s.drop_first()[k] == s[k + 1]);
        }
        assert(s.drop_first().skip(i - 1) =~= s.skip(i));
    }
}

} // verus!
