//! Steam shortcuts, the platform entries they are made from, and their
//! mathematical model.
use vstd::prelude::*;

verus! {

/// One entry of a user's Steam shortcut catalog.
pub struct Shortcut {
    pub order: String,
    pub app_id: u32,
    pub app_name: String,
    pub exe: String,
    pub start_dir: String,
    pub icon: String,
    pub shortcut_path: String,
    pub launch_options: String,
    pub is_hidden: bool,
    pub allow_desktop_config: bool,
    pub allow_overlay: bool,
    pub open_vr: u32,
    pub dev_kit: u32,
    pub dev_kit_game_id: String,
    pub dev_kit_overrite_app_id: u32,
    pub last_play_time: u32,
    pub tags: Vec<String>,
}

/// What a shortcut holds, with each string as its characters.
pub struct ShortcutView {
    pub order: Seq<char>,
    pub app_id: u32,
    pub app_name: Seq<char>,
    pub exe: Seq<char>,
    pub start_dir: Seq<char>,
    pub icon: Seq<char>,
    pub shortcut_path: Seq<char>,
    pub launch_options: Seq<char>,
    pub is_hidden: bool,
    pub allow_desktop_config: bool,
    pub allow_overlay: bool,
    pub open_vr: u32,
    pub dev_kit: u32,
    pub dev_kit_game_id: Seq<char>,
    pub dev_kit_overrite_app_id: u32,
    pub last_play_time: u32,
    pub tags: Seq<Seq<char>>,
}

/// The characters of each string of `v`.
pub open spec fn strings_view(v: Seq<String>) -> Seq<Seq<char>> {
    v.map_values(|s: String| s@)
}

impl View for Shortcut {
    type V = ShortcutView;

    open spec fn view(&self) -> ShortcutView {
        ShortcutView {
            order: self.order@,
            app_id: self.app_id,
            app_name: self.app_name@,
            exe: self.exe@,
            start_dir: self.start_dir@,
            icon: self.icon@,
            shortcut_path: self.shortcut_path@,
            launch_options: self.launch_options@,
            is_hidden: self.is_hidden,
            allow_desktop_config: self.allow_desktop_config,
            allow_overlay: self.allow_overlay,
            open_vr: self.open_vr,
            dev_kit: self.dev_kit,
            dev_kit_game_id: self.dev_kit_game_id@,
            dev_kit_overrite_app_id: self.dev_kit_overrite_app_id,
            last_play_time: self.last_play_time,
            tags: strings_view(self.tags@),
        }
    }
}

/// The model of a collection of shortcuts.
pub open spec fn views(c: Seq<Shortcut>) -> Seq<ShortcutView> {
    c.map_values(|s: Shortcut| s@)
}

/// Whether a shortcut carries `tag`.
pub open spec fn has_tag(s: ShortcutView, tag: Seq<char>) -> bool {
    s.tags.contains(tag)
}

/// A user's shortcut collection together with the file it is written to.
pub struct ShortcutInfo {
    pub path: String,
    pub shortcuts: Vec<Shortcut>,
}

/// A game found by a launcher platform, before it becomes a shortcut.
pub struct PlatformEntry {
    pub app_name: String,
    pub exe: String,
    pub start_dir: String,
    pub icon: String,
    pub launch_options: String,
}

/// The app id that Steam derives from a shortcut's exe path and name.
pub uninterp spec fn steam_app_id(exe: Seq<char>, app_name: Seq<char>) -> u32;

/// Relies on steam_shortcuts_util::app_id_generator::calculate_app_id: a
/// checksum of the exe path followed by the name, with the top bit set.
#[verifier::external_body]
fn calculate_app_id(exe: &str, app_name: &str) -> (r: u32)
    ensures
        r == steam_app_id(exe@, app_name@),
        r >= 0x8000_0000,
{
    steam_shortcuts_util::app_id_generator::calculate_app_id(exe, app_name)
}

/// The shortcut that `e` becomes under platform tag `tag`, given its app id:
/// Steam's defaults, and `tag` as its only tag.
pub open spec fn entry_shortcut(e: PlatformEntry, tag: Seq<char>, app_id: u32) -> ShortcutView {
    ShortcutView {
        order: Seq::empty(),
        app_id: app_id,
        app_name: e.app_name@,
        exe: e.exe@,
        start_dir: e.start_dir@,
        icon: e.icon@,
        shortcut_path: Seq::empty(),
        launch_options: e.launch_options@,
        is_hidden: false,
        allow_desktop_config: true,
        allow_overlay: true,
        open_vr: 0,
        dev_kit: 0,
        dev_kit_game_id: Seq::empty(),
        dev_kit_overrite_app_id: 0,
        last_play_time: 0,
        tags: seq![tag],
    }
}

/// The shortcut that `e` becomes under platform tag `tag`.
pub open spec fn converted(e: PlatformEntry, tag: Seq<char>) -> ShortcutView {
    entry_shortcut(e, tag, steam_app_id(e.exe@, e.app_name@))
}

impl PlatformEntry {
    /// Builds the shortcut for this entry under `tag`, with the given app id.
    pub fn to_shortcut_with_id(&self, tag: &String, app_id: u32) -> (r: Shortcut)
        ensures
            r@ == entry_shortcut(*self, tag@, app_id),
    {
        let mut tags: Vec<String> = Vec::new();
        tags.push(tag.clone());
        let r = Shortcut {
            order: String::new(),
            app_id,
            app_name: self.app_name.clone(),
            exe: self.exe.clone(),
            start_dir: self.start_dir.clone(),
            icon: self.icon.clone(),
            shortcut_path: String::new(),
            launch_options: self.launch_options.clone(),
            is_hidden: false,
            allow_desktop_config: true,
            allow_overlay: true,
            open_vr: 0,
            dev_kit: 0,
            dev_kit_game_id: String::new(),
            dev_kit_overrite_app_id: 0,
            last_play_time: 0,
            tags,
        };
        assert(strings_view(r.tags@) =~= seq![tag@]);
        r
    }

    /// Builds the shortcut for this entry under `tag`, its app id derived from
    /// its exe path and name.
    pub fn to_shortcut(&self, tag: &String) -> (r: Shortcut)
        ensures
            r@ == converted(*self, tag@),
    {
        let app_id = calculate_app_id(self.exe.as_str(), self.app_name.as_str());
        self.to_shortcut_with_id(tag, app_id)
    }
}

impl Shortcut {
    /// Whether this shortcut carries `tag`.
    pub fn has_tag(&self, tag: &String) -> (r: bool)
        ensures
            r == has_tag(self@, tag@),
    {
        let mut i: usize = 0;
        while i < self.tags.len()
            invariant
                i <= self.tags@.len(),
                forall|k: int| 0 <= k < i ==> self.tags@[k]@ != tag@,
            decreases self.tags@.len() - i,
        {
            if self.tags[i] == *tag {
                assert(strings_view(self.tags@)[i as int] == tag@);
                return true;
            }
            i = i + 1;
        }
        assert(!strings_view(self.tags@).contains(tag@)) by {
            if strings_view(self.tags@).contains(tag@) {
                let k = choose|k: int| 0 <= k < strings_view(self.tags@).len() && strings_view(self.tags@)[k] == tag@;
                assert(self.tags@[k]@ == tag@);
            }
        }
        false
    }
}

} // verus!
