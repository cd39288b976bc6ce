use whipseey_save_manager::data::cheats::CheatsEnabled;
use whipseey_save_manager::data::file::{File, Lives};
use whipseey_save_manager::data::BfsSettings;
use whipseey_save_manager::gui::cheats::{Cheats, DisplayStrings as CheatsStrings};
use whipseey_save_manager::gui::file_select::{DisplayStrings as SelectStrings, FileSelect};
use whipseey_save_manager::gui::file::{
    DisplayStrings as FileStrings, File as FileTab, State as FileTabState,
};
use whipseey_save_manager::gui::files::{DisplayStrings as FilesStrings, Files};
use whipseey_save_manager::gui::{FileSelectId, SaveSection, TabId};

fn select_strings() -> SelectStrings {
    SelectStrings {
        placeholder: "save game",
        open_label: "...",
        open_tooltip: "Open and Load a new File",
        save_label: "save",
        save_tooltip: "Save current Values to File",
        reload_label: "reload",
        reload_tooltip: "Reload Values from File",
        dialog_title: "save game",
        dialog_file_name: "whipseey.sav",
        dialog_filter_file: "save",
        dialog_filter_ext: "sav",
        dialog_filter_all: "all",
        modal_description: "file dialog open",
    }
}

#[test]
fn default_tab_is_files() {
    assert_eq!(TabId::default(), TabId::Files);
}

#[test]
fn cheats_tab_round_trips_its_state() {
    let strings = CheatsStrings {
        title: "Cheats",
        checkbox: "cheats enabled",
        description: "enables the cheats menu",
    };
    let mut tab = Cheats::new(strings);
    assert_eq!(tab.get_state(), BfsSettings::default());
    let mut loaded = BfsSettings::default();
    loaded.cheats.cheats_enabled = CheatsEnabled::Enabled;
    tab.set_state(loaded);
    assert_eq!(tab.get_state(), loaded);
}

#[test]
fn files_tab_round_trips_its_state() {
    let strings = FilesStrings {
        title: "Files",
        progress: "progress",
        file_titel: "file",
        intro_label: "intro",
        intro_tooltip: "whether the intro was watched",
        gems_label: "gems",
        gems_tooltip: "number of gems",
        cycle_gems_label: "cycle",
        cycle_gems_tooltip: "cycle gems",
        max_label: "max",
        max_tooltip: "maximum values",
        save_label: "save",
        save_tooltip: "save to file",
        ending_label: "ending",
        ending_tooltip: "whether the ending was watched",
        lives_label: "lives",
        lives_tooltip: "number of lives",
        cycle_lives_label: "cycle",
        cycle_lives_tooltip: "cycle lives",
        reset_label: "reset",
        reset_tooltip: "reset the slot",
        reload_label: "reload",
        reload_tooltip: "reload from file",
    };
    let mut tab = Files::new(strings);
    assert!(tab.can_reload);
    assert_eq!(tab.get_state(), [File::default(); 3]);
    let mut slots = [File::default(); 3];
    slots[1].lives = Lives::try_from(77).expect("in range");
    tab.set_state(slots);
    assert_eq!(tab.get_state(), slots);
}

#[test]
fn file_select_tracks_id_and_path() {
    let mut select = FileSelect::new(FileSelectId::Save(SaveSection::Files), select_strings());
    assert_eq!(select.get_state(), "");
    select.set_id(FileSelectId::Bfs);
    assert!(matches!(select.id, FileSelectId::Bfs));
    select.set_state("no_such_file_anywhere_here.sav".to_string());
    assert!(!select.does_path_exist());
    select.set_state(".".to_string());
    assert!(select.does_path_exist());
}

#[test]
fn file_tab_starts_without_a_path() {
    let tab = FileTab::new(
        FileSelectId::Bfs,
        FileStrings {
            placeholder: "settings",
            open: "open",
            save: "save",
            reload: "reload",
            dialog_title: "settings",
            dialog_filter_save: "ini",
            dialog_filter_all: "all",
        },
    );
    assert_eq!(tab.path, "");
    assert_eq!(tab.state, FileTabState::NoPath);
}
