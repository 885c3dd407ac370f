//! What the user can set, and the folders that follow from it.

use crate::foreign;
use crate::names::{FilePath, FilePathModel};
use crate::text::{
    ascii_upper, is_blank, is_space, opt, same, to_ascii_upper, to_chars, trim, trim_back,
    trim_front, trimmed, trimmed_is_between_blanks,
};
use vstd::prelude::*;

verus! {

/// The theme that is used until another is set.
pub fn default_theme() -> (r: String)
    ensures
        r@ == "dark"@,
{
    String::from_str("dark")
}

/// The accent colour that is used until another is set.
pub fn default_accent() -> (r: String)
    ensures
        r@ == "#4FB286"@,
{
    String::from_str("#4FB286")
}

/// The shortcut that is used until another is set.
pub fn default_shortcut() -> (r: String)
    ensures
        r@ == "Alt+S"@,
{
    String::from_str("Alt+S")
}

/// How folders are chosen until it is set otherwise.
pub fn default_download_mode() -> (r: String)
    ensures
        r@ == "single"@,
{
    String::from_str("single")
}

/// What the user set, as it is kept.
pub struct AppData {
    pub theme: String,
    pub accent_color: String,
    pub shortcut: String,
    /// `single` or `byType`.
    pub download_mode: String,
    /// The folder for downloads; the default one where it is blank.
    pub download_dir: String,
}

/// The model of `AppData`.
#[verifier::ext_equal]
pub struct AppModel {
    pub theme: Seq<char>,
    pub accent_color: Seq<char>,
    pub shortcut: Seq<char>,
    pub download_mode: Seq<char>,
    pub download_dir: Seq<char>,
}

impl View for AppData {
    type V = AppModel;

    open spec fn view(&self) -> AppModel {
        AppModel {
            theme: self.theme@,
            accent_color: self.accent_color@,
            shortcut: self.shortcut@,
            download_mode: self.download_mode@,
            download_dir: self.download_dir@,
        }
    }
}

/// What is set before the user sets anything.
pub open spec fn defaults() -> AppModel {
    AppModel {
        theme: "dark"@,
        accent_color: "#4FB286"@,
        shortcut: "Alt+S"@,
        download_mode: "single"@,
        download_dir: Seq::empty(),
    }
}

impl Default for AppData {
    fn default() -> (r: Self)
        ensures
            r@ == defaults(),
    {
        let r = AppData {
            theme: default_theme(),
            accent_color: default_accent(),
            shortcut: default_shortcut(),
            download_mode: default_download_mode(),
            download_dir: String::new(),
        };
        assert(r@.download_dir =~= Seq::<char>::empty());
        r
    }
}

/// A folder: one that is named as a whole, or one inside another.
pub enum Location {
    Whole(String),
    Inside(FilePath),
}

/// The model of `Location`.
pub enum LocationModel {
    Whole(Seq<char>),
    Inside(FilePathModel),
}

impl View for Location {
    type V = LocationModel;

    open spec fn view(&self) -> LocationModel {
        match self {
            Location::Whole(path) => LocationModel::Whole(path@),
            Location::Inside(path) => LocationModel::Inside(path@),
        }
    }
}

impl Clone for Location {
    fn clone(&self) -> (r: Self)
        ensures
            r@ == self@,
    {
        match self {
            Location::Whole(path) => Location::Whole(path.clone()),
            Location::Inside(path) => Location::Inside(
                FilePath { dir: path.dir.clone(), name: path.name.clone() },
            ),
        }
    }
}

/// The program's folder inside another.
pub open spec fn own_folder(dir: Seq<char>) -> LocationModel {
    LocationModel::Inside(FilePathModel { dir, name: "Siphon"@ })
}

fn own_folder_in(dir: String) -> (r: Location)
    ensures
        r@ == own_folder(dir@),
{
    Location::Inside(FilePath { dir, name: String::from_str("Siphon") })
}

/// The folders that the system has for the user.
pub struct SystemDirs {
    pub downloads: Option<String>,
    pub video: Option<String>,
    pub audio: Option<String>,
}

/// The model of `SystemDirs`.
#[verifier::ext_equal]
pub struct DirsModel {
    pub downloads: Option<Seq<char>>,
    pub video: Option<Seq<char>>,
    pub audio: Option<Seq<char>>,
}

impl View for SystemDirs {
    type V = DirsModel;

    open spec fn view(&self) -> DirsModel {
        DirsModel {
            downloads: opt(self.downloads),
            video: opt(self.video),
            audio: opt(self.audio),
        }
    }
}

/// Whether `dirs` are folders that the system gave: each is what it answers when it is asked for
/// the user's folder of that kind.
pub closed spec fn is_of_system(dirs: DirsModel) -> bool {
    exists|downloads: Option<String>, video: Option<String>, audio: Option<String>|
        #![trigger opt(downloads), opt(video), opt(audio)]
        {
            &&& call_ensures(foreign::download_dir, (), downloads)
            &&& call_ensures(foreign::video_dir, (), video)
            &&& call_ensures(foreign::audio_dir, (), audio)
            &&& dirs == (DirsModel {
                downloads: opt(downloads),
                video: opt(video),
                audio: opt(audio),
            })
        }
}

/// The folders that the system has for the user. Which they are depends on the machine.
fn system_dirs() -> (r: SystemDirs)
    ensures
        is_of_system(r@),
{
    let r = SystemDirs {
        downloads: foreign::download_dir(),
        video: foreign::video_dir(),
        audio: foreign::audio_dir(),
    };
    assert(opt(r.downloads) == r@.downloads);
    r
}

/// The folder for downloads, given what was set and the system's folders.
pub open spec fn base_location(custom: Seq<char>, dirs: DirsModel) -> LocationModel {
    if trimmed(custom).len() > 0 {
        LocationModel::Whole(custom)
    } else {
        match dirs.downloads {
            Some(dir) => own_folder(dir),
            None => LocationModel::Whole("Siphon"@),
        }
    }
}

/// The folder for downloads, given what was set and the system's folders.
pub fn base_dir(custom: &str, dirs: &SystemDirs) -> (r: Location)
    ensures
        r@ == base_location(custom@, dirs@),
{
    if trim(custom).as_str().is_empty() {
        match &dirs.downloads {
            Some(dir) => own_folder_in(dir.clone()),
            None => Location::Whole(String::from_str("Siphon")),
        }
    } else {
        Location::Whole(custom.to_owned())
    }
}

/// The folder for downloads, given what was set. It depends on the system's folders only where
/// nothing was set.
pub fn default_base_dir(custom: &str) -> (r: Location)
    ensures
        exists|dirs: DirsModel|
            is_of_system(dirs) && r@ == #[trigger] base_location(custom@, dirs),
{
    let dirs = system_dirs();
    base_dir(custom, &dirs)
}

/// The folder for media in the format `preset`: inside the system's for videos or for sound, or
/// the given one where the system has none.
pub open spec fn type_location(
    preset: Seq<char>,
    dirs: DirsModel,
    fallback: LocationModel,
) -> LocationModel {
    let known = if preset == "mp4"@ {
        dirs.video
    } else {
        dirs.audio
    };
    match known {
        Some(dir) => own_folder(dir),
        None => fallback,
    }
}

/// The folder for media in the format `preset`.
pub fn type_dir(preset: &str, dirs: &SystemDirs, fallback: Location) -> (r: Location)
    ensures
        r@ == type_location(preset@, dirs@, fallback@),
{
    let known = if same(preset, "mp4") {
        &dirs.video
    } else {
        &dirs.audio
    };
    match known {
        Some(dir) => own_folder_in(dir.clone()),
        None => fallback,
    }
}

/// Whether a character is a hexadecimal digit.
pub open spec fn is_hex(c: char) -> bool {
    '0' <= c <= '9' || 'a' <= c <= 'f' || 'A' <= c <= 'F'
}

/// A text without the number sign that it begins with.
pub open spec fn without_sign(s: Seq<char>) -> Seq<char> {
    if s.len() > 0 && s[0] == '#' {
        s.skip(1)
    } else {
        s
    }
}

/// Six hexadecimal digits.
pub open spec fn is_six_hex(s: Seq<char>) -> bool {
    s.len() == 6 && forall|i: int| 0 <= i < 6 ==> is_hex(#[trigger] s[i])
}

/// The accent colour that a text stands for: a number sign and six digits in upper case.
pub open spec fn accent_of(value: Seq<char>) -> Seq<char> {
    let hex = without_sign(trimmed(value));
    if is_six_hex(hex) {
        seq!['#'] + hex.map_values(|c: char| ascii_upper(c))
    } else {
        "#4FB286"@
    }
}

/// The accent colour that a text stands for.
pub fn normalize_accent_color(value: &str) -> (r: String)
    ensures
        r@ == accent_of(value@),
{
    let t = trim(value);
    let c = to_chars(t.as_str());
    let from: usize = if c.len() > 0 && c[0] == '#' {
        1
    } else {
        0
    };
    let ghost hex = without_sign(trimmed(value@));
    assert(hex =~= c@.skip(from as int));
    if c.len() - from != 6 {
        return default_accent();
    }
    let mut r = String::from_str("#");
    let mut i: usize = from;
    let ghost up = |c: char| ascii_upper(c);
    proof {
        reveal_strlit("#");
        assert(r@ =~= seq!['#'] + hex.take(0).map_values(up));
    }
    while i < c.len()
        invariant
            from <= i <= c@.len(),
            from <= 1,
            c@.len() == from + 6,
            hex == c@.skip(from as int),
            hex == without_sign(trimmed(value@)),
            up == (|c: char| ascii_upper(c)),
            forall|k: int| 0 <= k < i - from ==> is_hex(#[trigger] hex[k]),
            r@ == seq!['#'] + hex.take(i - from).map_values(up),
        decreases c.len() - i,
    {
        let d = c[i];
        assert(hex[i - from] == d);
        let digit = ('0' <= d && d <= '9') || ('a' <= d && d <= 'f') || ('A' <= d && d <= 'F');
        if !digit {
            return default_accent();
        }
        r.push(to_ascii_upper(d));
        i = i + 1;
        assert(hex.take(i - from).map_values(up) =~= hex.take(i - from - 1).map_values(up).push(
            up(d),
        ));
        assert(r@ =~= seq!['#'] + hex.take(i - from).map_values(up));
    }
    assert(hex.take(6) =~= hex);
    r
}

/// A number sign and six hexadecimal digits in upper case.
pub open spec fn is_color(s: Seq<char>) -> bool {
    &&& s.len() == 7
    &&& s[0] == '#'
    &&& forall|i: int|
        1 <= i < 7 ==> ('0' <= #[trigger] s[i] <= '9' || 'A' <= s[i] <= 'F')
}

/// Whatever is set as the accent colour, a colour comes out; and one that came out is kept as it
/// is.
pub proof fn accent_is_color(value: Seq<char>)
    ensures
        is_color(accent_of(value)),
        accent_of(accent_of(value)) == accent_of(value),
{
    reveal_strlit("#4FB286");
    let a = accent_of(value);
    assert(is_color(a));
    lemma_no_space(a);
    assert(without_sign(a) =~= a.skip(1));
    assert forall|i: int| 0 <= i < 6 implies is_hex(#[trigger] a.skip(1)[i]) by {
        assert(a.skip(1)[i] == a[i + 1]);
    }
    assert(a.skip(1).map_values(|c: char| ascii_upper(c)) =~= a.skip(1)) by {
        assert forall|i: int| 0 <= i < 6 implies ascii_upper(#[trigger] a.skip(1)[i])
            == a.skip(1)[i] by {
            assert(a.skip(1)[i] == a[i + 1]);
        }
    }
    assert(seq!['#'] + a.skip(1) =~= a);
}

proof fn lemma_no_space(a: Seq<char>)
    requires
        is_color(a),
    ensures
        trimmed(a) == a,
{
    assert(!is_space(a[0]));
    assert(!is_space(a[6]));
    assert(trim_front(a) == a);
    assert(a.last() == a[6]);
    assert(trim_back(a) == a);
}

/// What the user set, with the folders that follow from it.
pub struct Settings {
    pub theme: String,
    pub accent_color: String,
    pub shortcut: String,
    pub download_mode: String,
    pub download_dir: Location,
    pub video_dir: Location,
    pub audio_dir: Location,
}

/// What the user set.
pub struct SettingsState {
    pub data: AppData,
}

impl View for SettingsState {
    type V = AppModel;

    open spec fn view(&self) -> AppModel {
        self.data@
    }
}

/// Whether `r` shows what was set in `data`, given the system's folders.
pub open spec fn shows(data: AppModel, dirs: DirsModel, r: Settings) -> bool {
    let base = base_location(data.download_dir, dirs);
    &&& r.theme@ == data.theme
    &&& r.accent_color@ == data.accent_color
    &&& r.shortcut@ == data.shortcut
    &&& r.download_mode@ == data.download_mode
    &&& r.download_dir@ == base
    &&& r.video_dir@ == type_location("mp4"@, dirs, base)
    &&& r.audio_dir@ == type_location("mp3"@, dirs, base)
}

/// The folder that a download in the format `preset` goes to, given the system's folders.
pub open spec fn target_of(data: AppModel, preset: Seq<char>, dirs: DirsModel) -> LocationModel {
    let base = base_location(data.download_dir, dirs);
    if data.download_mode == "byType"@ {
        type_location(preset, dirs, base)
    } else {
        base
    }
}

impl SettingsState {
    /// What was kept; the defaults where nothing was.
    pub fn load(kept: Option<AppData>) -> (r: SettingsState)
        ensures
            r@ == (match kept {
                Some(data) => data@,
                None => defaults(),
            }),
    {
        let data = match kept {
            Some(data) => data,
            None => AppData::default(),
        };
        SettingsState { data }
    }

    /// What was set, with the folders that follow from it and from the system's.
    pub fn snapshot_in(&self, dirs: &SystemDirs) -> (r: Settings)
        ensures
            shows(self@, dirs@, r),
    {
        let base = base_dir(self.data.download_dir.as_str(), dirs);
        Settings {
            theme: self.data.theme.clone(),
            accent_color: self.data.accent_color.clone(),
            shortcut: self.data.shortcut.clone(),
            download_mode: self.data.download_mode.clone(),
            video_dir: type_dir("mp4", dirs, base.clone()),
            audio_dir: type_dir("mp3", dirs, base.clone()),
            download_dir: base,
        }
    }

    /// What was set, with the folders that follow from it.
    pub fn snapshot(&self) -> (r: Settings)
        ensures
            exists|dirs: DirsModel| is_of_system(dirs) && #[trigger] shows(self@, dirs, r),
    {
        let dirs = system_dirs();
        self.snapshot_in(&dirs)
    }

    /// The folder that a download in the format `preset` goes to, given the system's folders.
    pub fn target_dir_in(&self, preset: &str, dirs: &SystemDirs) -> (r: Location)
        ensures
            r@ == target_of(self@, preset@, dirs@),
    {
        let base = base_dir(self.data.download_dir.as_str(), dirs);
        if same(self.data.download_mode.as_str(), "byType") {
            type_dir(preset, dirs, base)
        } else {
            base
        }
    }

    /// The folder that a download in the format `preset` goes to.
    pub fn target_dir(&self, preset: &str) -> (r: Location)
        ensures
            exists|dirs: DirsModel|
                is_of_system(dirs) && r@ == #[trigger] target_of(self@, preset@, dirs),
    {
        let dirs = system_dirs();
        self.target_dir_in(preset, &dirs)
    }

    /// Sets the theme, and returns it.
    pub fn set_theme(&mut self, theme: String) -> (r: String)
        ensures
            final(self)@ == (AppModel { theme: theme@, ..old(self)@ }),
            r@ == theme@,
    {
        self.data.theme = theme.clone();
        theme
    }

    /// Sets the accent colour.
    pub fn set_appearance(&mut self, accent_color: &str)
        ensures
            final(self)@ == (AppModel { accent_color: accent_of(accent_color@), ..old(self)@ }),
    {
        self.data.accent_color = normalize_accent_color(accent_color);
    }

    /// Sets how folders are chosen: by the kind of the medium, or one for all.
    pub fn set_download_mode(&mut self, mode: &str)
        ensures
            final(self)@ == (AppModel {
                download_mode: if mode@ == "byType"@ {
                    "byType"@
                } else {
                    "single"@
                },
                ..old(self)@
            }),
    {
        self.data.download_mode = if same(mode, "byType") {
            String::from_str("byType")
        } else {
            String::from_str("single")
        };
    }

    /// Sets the one folder that all downloads go to.
    pub fn pick_download_dir(&mut self, path: String)
        ensures
            final(self)@ == (AppModel {
                download_dir: path@,
                download_mode: "single"@,
                ..old(self)@
            }),
    {
        self.data.download_dir = path;
        self.data.download_mode = String::from_str("single");
    }

    /// Sets the shortcut.
    pub fn set_shortcut(&mut self, shortcut: String)
        ensures
            final(self)@ == (AppModel { shortcut: shortcut@, ..old(self)@ }),
    {
        self.data.shortcut = shortcut;
    }

    /// Replaces the shortcut that was the default once by the one that is the default now.
    pub fn migrate_shortcut(&mut self)
        ensures
            final(self)@ == (AppModel {
                shortcut: if old(self)@.shortcut == "CommandOrControl+Shift+S"@ {
                    "Alt+S"@
                } else {
                    old(self)@.shortcut
                },
                ..old(self)@
            }),
    {
        if same(self.data.shortcut.as_str(), "CommandOrControl+Shift+S") {
            self.data.shortcut = default_shortcut();
        }
    }
}

/// A folder that the user picked is where every download goes, whatever its format.
pub proof fn picked_folder_is_target(
    data: AppModel,
    path: Seq<char>,
    preset: Seq<char>,
    dirs: DirsModel,
)
    requires
        trimmed(path).len() > 0,
    ensures
        target_of(
            AppModel { download_dir: path, download_mode: "single"@, ..data },
            preset,
            dirs,
        ) == LocationModel::Whole(path),
{
    reveal_strlit("single");
    reveal_strlit("byType");
    assert("single"@[0] != "byType"@[0]);
}

/// Where the program keeps downloads that name no folder, given the system's folders.
pub open spec fn downloads_location(app_data_dir: Seq<char>, dirs: DirsModel) -> FilePathModel {
    match dirs.downloads {
        Some(dir) => FilePathModel { dir, name: "Siphon"@ },
        None => FilePathModel { dir: app_data_dir, name: "downloads"@ },
    }
}

/// Where the program keeps downloads that name no folder, given the system's folders.
pub fn downloads_dir_in(app_data_dir: &str, dirs: &SystemDirs) -> (r: FilePath)
    ensures
        r@ == downloads_location(app_data_dir@, dirs@),
{
    match &dirs.downloads {
        Some(dir) => FilePath { dir: dir.clone(), name: String::from_str("Siphon") },
        None => FilePath { dir: app_data_dir.to_owned(), name: String::from_str("downloads") },
    }
}

/// Where the program keeps downloads that name no folder.
pub fn downloads_dir(app_data_dir: &str) -> (r: FilePath)
    ensures
        exists|dirs: DirsModel|
            is_of_system(dirs) && r@ == #[trigger] downloads_location(app_data_dir@, dirs),
{
    let dirs = system_dirs();
    downloads_dir_in(app_data_dir, &dirs)
}

/// Whether the system answered with a folder when it was asked for the user's downloads.
pub closed spec fn is_downloads_answer(dir: Option<Seq<char>>) -> bool {
    exists|answer: Option<String>|
        call_ensures(foreign::download_dir, (), answer) && dir == #[trigger] opt(answer)
}

/// Whether the system answered with a folder when it was asked for the user's videos.
pub closed spec fn is_video_answer(dir: Option<Seq<char>>) -> bool {
    exists|answer: Option<String>|
        call_ensures(foreign::video_dir, (), answer) && dir == #[trigger] opt(answer)
}

/// Whether the system answered with a folder when it was asked for the user's sound.
pub closed spec fn is_audio_answer(dir: Option<Seq<char>>) -> bool {
    exists|answer: Option<String>|
        call_ensures(foreign::audio_dir, (), answer) && dir == #[trigger] opt(answer)
}

/// The folder named `Siphon` inside another.
pub open spec fn is_siphon_in(location: Location, dir: Seq<char>) -> bool {
    location matches Location::Inside(path) && path.dir@ == dir && path.name@ == "Siphon"@
}

/// Whether a text holds anything but blanks.
pub open spec fn says_something(s: Seq<char>) -> bool {
    exists|i: int| 0 <= i < s.len() && !is_space(#[trigger] s[i])
}

/// Whether a folder is the one for all downloads: the one that was set, and where none was, the
/// program's own inside the downloads folder that the system has, or a relative one where it has
/// none.
pub open spec fn is_base_folder(
    location: Location,
    custom: Seq<char>,
    downloads: Option<Seq<char>>,
) -> bool {
    &&& says_something(custom) ==> (location matches Location::Whole(path) && path@ == custom)
    &&& !says_something(custom) ==> match downloads {
        Some(dir) => is_siphon_in(location, dir),
        None => location matches Location::Whole(path) && path@ == "Siphon"@,
    }
}

/// The folder that a download goes to follows from the settings and from the system's own folders,
/// each as the system gave it: the one for all downloads, or, where folders are chosen by type,
/// the program's own inside the user's videos for MP4 files and inside the user's sound for
/// others, where the system has them.
pub proof fn target_follows_settings_and_system(
    state: SettingsState,
    preset: &str,
    r: Location,
)
    requires
        call_ensures(SettingsState::target_dir, (&state, preset), r),
    ensures
        exists|downloads: Option<Seq<char>>, video: Option<Seq<char>>, audio: Option<Seq<char>>|
            {
                let by_type = state.data.download_mode@ == "byType"@;
                let known = if preset@ == "mp4"@ {
                    video
                } else {
                    audio
                };
                &&& #[trigger] is_downloads_answer(downloads)
                &&& #[trigger] is_video_answer(video)
                &&& #[trigger] is_audio_answer(audio)
                &&& by_type ==> (known matches Some(dir) ==> is_siphon_in(r, dir))
                &&& !by_type || known is None ==> is_base_folder(
                    r,
                    state.data.download_dir@,
                    downloads,
                )
            },
{
    let dirs = choose|dirs: DirsModel|
        is_of_system(dirs) && r@ == #[trigger] target_of(state@, preset@, dirs);
    lemma_answers(dirs);
    lemma_something(state.data.download_dir@);
    let by_type = state.data.download_mode@ == "byType"@;
    let known = if preset@ == "mp4"@ {
        dirs.video
    } else {
        dirs.audio
    };
    if by_type && known is Some {
        assert(is_siphon_in(r, known->0));
    } else {
        assert(is_base_folder(r, state.data.download_dir@, dirs.downloads));
    }
    assert(is_downloads_answer(dirs.downloads) && is_video_answer(dirs.video) && is_audio_answer(
        dirs.audio,
    ));
}

proof fn lemma_answers(dirs: DirsModel)
    requires
        is_of_system(dirs),
    ensures
        is_downloads_answer(dirs.downloads),
        is_video_answer(dirs.video),
        is_audio_answer(dirs.audio),
{
}

proof fn lemma_something(s: Seq<char>)
    ensures
        trimmed(s).len() > 0 <==> says_something(s),
{
    trimmed_is_between_blanks(s);
    let (front, back) = choose|front: Seq<char>, back: Seq<char>|
        #[trigger] is_blank(front) && #[trigger] is_blank(back) && s == front + trimmed(s) + back;
    if trimmed(s).len() > 0 {
        assert(s[front.len() as int] == trimmed(s)[0]);
        assert(!is_space(s[front.len() as int]));
    } else {
        assert forall|i: int| 0 <= i < s.len() implies is_space(#[trigger] s[i]) by {
            if i < front.len() {
                assert(s[i] == front[i]);
            } else {
                assert(s[i] == back[i - front.len()]);
            }
        }
    }
}

/// With the settings that nobody changed, a download goes to the program's own folder inside the
/// downloads folder that the system has.
pub proof fn first_download_goes_to_downloads(
    state: SettingsState,
    preset: &str,
    r: Location,
)
    requires
        call_ensures(SettingsState::load, (None,), state),
        call_ensures(SettingsState::target_dir, (&state, preset), r),
    ensures
        exists|downloads: Option<Seq<char>>| #[trigger]
            is_downloads_answer(downloads) && match downloads {
                Some(dir) => is_siphon_in(r, dir),
                None => r matches Location::Whole(path) && path@ == "Siphon"@,
            },
{
    target_follows_settings_and_system(state, preset, r);
    reveal_strlit("single");
    reveal_strlit("byType");
    assert("single"@[0] != "byType"@[0]);
    assert(!says_something(state.data.download_dir@));
}

/// What is shown of the settings is what is set, with the folders that downloads go to then: the
/// one for all downloads, and those for pictures and for sound.
pub proof fn shown_settings_are_the_set_ones(state: SettingsState, r: Settings)
    requires
        call_ensures(SettingsState::snapshot, (&state,), r),
    ensures
        r.theme@ == state.data.theme@,
        r.accent_color@ == state.data.accent_color@,
        r.shortcut@ == state.data.shortcut@,
        r.download_mode@ == state.data.download_mode@,
        exists|downloads: Option<Seq<char>>, video: Option<Seq<char>>, audio: Option<Seq<char>>|
            {
                let custom = state.data.download_dir@;
                &&& #[trigger] is_downloads_answer(downloads)
                &&& #[trigger] is_video_answer(video)
                &&& #[trigger] is_audio_answer(audio)
                &&& is_base_folder(r.download_dir, custom, downloads)
                &&& match video {
                    Some(dir) => is_siphon_in(r.video_dir, dir),
                    None => is_base_folder(r.video_dir, custom, downloads),
                }
                &&& match audio {
                    Some(dir) => is_siphon_in(r.audio_dir, dir),
                    None => is_base_folder(r.audio_dir, custom, downloads),
                }
            },
{
    let dirs = choose|dirs: DirsModel| is_of_system(dirs) && #[trigger] shows(state@, dirs, r);
    lemma_answers(dirs);
    lemma_something(state.data.download_dir@);
    reveal_strlit("mp4");
    reveal_strlit("mp3");
    assert("mp4"@[2] != "mp3"@[2]);
    assert(is_base_folder(r.download_dir, state.data.download_dir@, dirs.downloads));
    assert(is_downloads_answer(dirs.downloads) && is_video_answer(dirs.video) && is_audio_answer(
        dirs.audio,
    ));
}

/// Downloads that name no folder are kept in the program's own folder inside the downloads folder
/// that the system has, or beside the program's data where it has none; and a base folder without
/// one that was set is the same.
pub proof fn nameless_downloads_go_to_downloads(
    app_data_dir: &str,
    custom: &str,
    kept: FilePath,
    base: Location,
)
    requires
        call_ensures(downloads_dir, (app_data_dir,), kept),
        call_ensures(default_base_dir, (custom,), base),
    ensures
        exists|downloads: Option<Seq<char>>| #[trigger]
            is_downloads_answer(downloads) && match downloads {
                Some(dir) => kept.dir@ == dir && kept.name@ == "Siphon"@,
                None => kept.dir@ == app_data_dir@ && kept.name@ == "downloads"@,
            },
        exists|downloads: Option<Seq<char>>| #[trigger]
            is_downloads_answer(downloads) && is_base_folder(base, custom@, downloads),
{
    let dirs = choose|dirs: DirsModel|
        is_of_system(dirs) && kept@ == #[trigger] downloads_location(app_data_dir@, dirs);
    lemma_answers(dirs);
    assert(is_downloads_answer(dirs.downloads));
    let other = choose|other: DirsModel|
        is_of_system(other) && base@ == #[trigger] base_location(custom@, other);
    lemma_answers(other);
    lemma_something(custom@);
    assert(is_base_folder(base, custom@, other.downloads));
}

/// A colour of six hexadecimal digits, with a number sign before it or without and with blanks
/// around it, is kept digit by digit in upper case; what is no such colour becomes the colour that
/// is used until another is set.
pub proof fn accent_keeps_digits(value: &str, hex: Seq<char>, r: String)
    requires
        call_ensures(normalize_accent_color, (value,), r),
        is_six_hex(hex),
    ensures
        trimmed(value@) == hex || trimmed(value@) == seq!['#'] + hex ==> r@.len() == 7 && r@[0]
            == '#' && forall|i: int|
            0 <= i < 6 ==> (#[trigger] r@[i + 1] == hex[i] && !('a' <= hex[i] <= 'f')) || (
            'a' <= hex[i] <= 'f' && r@[i + 1] as int == hex[i] as int - 32),
        (forall|other: Seq<char>|
            is_six_hex(other) ==> trimmed(value@) != other && trimmed(value@) != #[trigger] (seq![
                '#',
            ] + other)) ==> r@ == "#4FB286"@,
{
    let t = trimmed(value@);
    if t == hex || t == seq!['#'] + hex {
        assert(hex[0] != '#') by {
            assert(is_hex(hex[0]));
        }
        assert(without_sign(t) =~= hex);
        assert forall|i: int| 0 <= i < 6 implies (#[trigger] r@[i + 1] == hex[i] && !('a' <= hex[i]
            <= 'f')) || ('a' <= hex[i] <= 'f' && r@[i + 1] as int == hex[i] as int - 32) by {
            assert(is_hex(hex[i]));
            assert(r@[i + 1] == ascii_upper(hex[i]));
        }
    }
    if is_six_hex(without_sign(t)) {
        let other = without_sign(t);
        if t.len() > 0 && t[0] == '#' {
            assert(t =~= seq!['#'] + other);
        } else {
            let marked = seq!['#'] + other;
            assert(t == other);
        }
    }
}

/// Setting one thing is seen when it is read, and changes nothing else; picking a folder also ends
/// the choice by type.
pub proof fn set_values_are_kept(
    state: &mut SettingsState,
    theme: String,
    shortcut: String,
    path: String,
    r: String,
)
    ensures
        call_ensures(SettingsState::set_theme, (state, theme), r) ==> {
            &&& r@ == theme@
            &&& final(state).data.theme@ == theme@
            &&& final(state).data.accent_color@ == old(state).data.accent_color@
            &&& final(state).data.shortcut@ == old(state).data.shortcut@
            &&& final(state).data.download_mode@ == old(state).data.download_mode@
            &&& final(state).data.download_dir@ == old(state).data.download_dir@
        },
        call_ensures(SettingsState::set_shortcut, (state, shortcut), ()) ==> {
            &&& final(state).data.shortcut@ == shortcut@
            &&& final(state).data.accent_color@ == old(state).data.accent_color@
            &&& final(state).data.theme@ == old(state).data.theme@
            &&& final(state).data.download_mode@ == old(state).data.download_mode@
            &&& final(state).data.download_dir@ == old(state).data.download_dir@
        },
        call_ensures(SettingsState::pick_download_dir, (state, path), ()) ==> {
            &&& final(state).data.download_dir@ == path@
            &&& final(state).data.download_mode@ == "single"@
            &&& final(state).data.theme@ == old(state).data.theme@
            &&& final(state).data.accent_color@ == old(state).data.accent_color@
            &&& final(state).data.shortcut@ == old(state).data.shortcut@
        },
{
}

/// Setting the colour or the choice of folders is seen when it is read, and changes nothing else;
/// a choice of folders that is unknown is the one folder for all. A shortcut is replaced only
/// where it is the one that was the default once.
pub proof fn set_choices_are_kept(state: &mut SettingsState, color: &str, mode: &str)
    ensures
        call_ensures(SettingsState::set_appearance, (state, color), ()) ==> {
            &&& final(state).data.accent_color@ == accent_of(color@)
            &&& final(state).data.theme@ == old(state).data.theme@
            &&& final(state).data.shortcut@ == old(state).data.shortcut@
            &&& final(state).data.download_mode@ == old(state).data.download_mode@
            &&& final(state).data.download_dir@ == old(state).data.download_dir@
        },
        call_ensures(SettingsState::set_download_mode, (state, mode), ()) ==> {
            &&& final(state).data.download_mode@ == if mode@ == "byType"@ {
                mode@
            } else {
                "single"@
            }
            &&& final(state).data.theme@ == old(state).data.theme@
            &&& final(state).data.accent_color@ == old(state).data.accent_color@
            &&& final(state).data.shortcut@ == old(state).data.shortcut@
            &&& final(state).data.download_dir@ == old(state).data.download_dir@
        },
        call_ensures(SettingsState::migrate_shortcut, (state,), ()) ==> {
            &&& old(state).data.shortcut@ == "CommandOrControl+Shift+S"@
                ==> final(state).data.shortcut@ == "Alt+S"@
            &&& old(state).data.shortcut@ != "CommandOrControl+Shift+S"@
                ==> final(state).data.shortcut@ == old(state).data.shortcut@
            &&& final(state).data.theme@ == old(state).data.theme@
            &&& final(state).data.accent_color@ == old(state).data.accent_color@
            &&& final(state).data.download_mode@ == old(state).data.download_mode@
            &&& final(state).data.download_dir@ == old(state).data.download_dir@
        },
{
}

/// What was kept is what is set after a start; and where nothing was kept, the theme is dark, the
/// shortcut is Alt and S, and all downloads go to one folder that is not named.
pub proof fn kept_settings_come_back(kept: AppData, loaded: SettingsState, fresh: SettingsState)
    requires
        call_ensures(SettingsState::load, (Some(kept),), loaded),
        call_ensures(SettingsState::load, (None,), fresh),
    ensures
        loaded.data.theme@ == kept.theme@,
        loaded.data.accent_color@ == kept.accent_color@,
        loaded.data.shortcut@ == kept.shortcut@,
        loaded.data.download_mode@ == kept.download_mode@,
        loaded.data.download_dir@ == kept.download_dir@,
        fresh.data.theme@ == "dark"@,
        fresh.data.accent_color@ == "#4FB286"@,
        fresh.data.shortcut@ == "Alt+S"@,
        fresh.data.download_mode@ == "single"@,
        fresh.data.download_dir@.len() == 0,
{
}

/// The folder that a download goes to follows from the settings and from the folders that are given
/// as the system's, and so do those that are shown.
pub proof fn target_follows_given_folders(
    state: SettingsState,
    preset: &str,
    dirs: SystemDirs,
    app_data_dir: &str,
    target: Location,
    shown: Settings,
    kept: FilePath,
)
    requires
        call_ensures(SettingsState::target_dir_in, (&state, preset, &dirs), target),
        call_ensures(SettingsState::snapshot_in, (&state, &dirs), shown),
        call_ensures(downloads_dir_in, (app_data_dir, &dirs), kept),
    ensures
        ({
            let custom = state.data.download_dir@;
            let by_type = state.data.download_mode@ == "byType"@;
            let known = if preset@ == "mp4"@ {
                opt(dirs.video)
            } else {
                opt(dirs.audio)
            };
            &&& by_type && known is Some ==> is_siphon_in(target, known->0)
            &&& !by_type || known is None ==> is_base_folder(target, custom, opt(dirs.downloads))
            &&& is_base_folder(shown.download_dir, custom, opt(dirs.downloads))
            &&& opt(dirs.video) matches Some(dir) ==> is_siphon_in(shown.video_dir, dir)
            &&& opt(dirs.audio) matches Some(dir) ==> is_siphon_in(shown.audio_dir, dir)
            &&& opt(dirs.downloads) matches Some(dir) ==> kept.dir@ == dir && kept.name@
                == "Siphon"@
            &&& dirs.downloads is None ==> kept.dir@ == app_data_dir@ && kept.name@ == "downloads"@
            &&& shown.theme@ == state.data.theme@
            &&& shown.accent_color@ == state.data.accent_color@
            &&& shown.shortcut@ == state.data.shortcut@
            &&& shown.download_mode@ == state.data.download_mode@
        }),
{
    lemma_something(state.data.download_dir@);
    reveal_strlit("mp4");
    reveal_strlit("mp3");
    assert("mp4"@[2] != "mp3"@[2]);
    assert(target@ == target_of(state@, preset@, dirs@));
    assert(shows(state@, dirs@, shown));
}

/// A base folder is the one that was set, or follows from the system's; a folder for one kind of
/// media is the program's own inside the system's, or the one that stands in for it.
pub proof fn folders_follow_given_folders(
    custom: &str,
    preset: &str,
    dirs: SystemDirs,
    fallback: Location,
    base: Location,
    of_type: Location,
)
    requires
        call_ensures(base_dir, (custom, &dirs), base),
        call_ensures(type_dir, (preset, &dirs, fallback), of_type),
    ensures
        is_base_folder(base, custom@, opt(dirs.downloads)),
        preset@ == "mp4"@ ==> (opt(dirs.video) matches Some(dir) ==> is_siphon_in(of_type, dir)),
        preset@ != "mp4"@ ==> (opt(dirs.audio) matches Some(dir) ==> is_siphon_in(of_type, dir)),
        (if preset@ == "mp4"@ {
            dirs.video
        } else {
            dirs.audio
        }) is None ==> of_type@ == fallback@,
{
    lemma_something(custom@);
    assert(base@ == base_location(custom@, dirs@));
    assert(of_type@ == type_location(preset@, dirs@, fallback@));
}

} // verus!
