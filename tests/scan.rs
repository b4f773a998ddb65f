use std::collections::HashMap;

use audio_scan::classify::{classify_lowered, classify_name, file_extension, FileType};
use audio_scan::greeting::greet;
use audio_scan::scanner::{DirEntry, EntryKind, ScanError, ScannedFile, Scanner, Step, SOFT_CAP};

/// A directory tree held in memory; entries keep the order in which they were added.
struct FakeTree {
    dirs: HashMap<String, Vec<(String, EntryKind)>>,
    sizes: HashMap<String, u64>,
    unreadable_dirs: Vec<String>,
    unreadable_files: Vec<String>,
}

fn parent_and_name(path: &str) -> (String, String) {
    let at = path.rfind('/').unwrap();
    (path[..at].to_string(), path[at + 1..].to_string())
}

impl FakeTree {
    fn new(root: &str) -> FakeTree {
        let mut dirs = HashMap::new();
        dirs.insert(root.to_string(), Vec::new());
        FakeTree { dirs, sizes: HashMap::new(), unreadable_dirs: Vec::new(), unreadable_files: Vec::new() }
    }

    fn dir(&mut self, path: &str) {
        let (parent, name) = parent_and_name(path);
        self.dirs.get_mut(&parent).unwrap().push((name, EntryKind::Directory));
        self.dirs.insert(path.to_string(), Vec::new());
    }

    fn file(&mut self, path: &str, size: u64) {
        let (parent, name) = parent_and_name(path);
        self.dirs.get_mut(&parent).unwrap().push((name, EntryKind::File));
        self.sizes.insert(path.to_string(), size);
    }

    fn listing(&self, path: &str) -> Result<Vec<DirEntry>, String> {
        if self.unreadable_dirs.iter().any(|d| d == path) {
            return Err(format!("Failed to read directory: permission denied: {}", path));
        }
        Ok(self.dirs[path]
            .iter()
            .map(|(name, kind)| DirEntry {
                name: name.clone(),
                path: format!("{}/{}", path, name),
                kind: *kind,
            })
            .collect())
    }

    fn size(&self, path: &str) -> Result<u64, String> {
        if self.unreadable_files.iter().any(|f| f == path) {
            return Err(format!("Failed to get file metadata: {}", path));
        }
        Ok(self.sizes[path])
    }

    fn scan(&self, root: &str, cap: usize) -> Result<Vec<ScannedFile>, ScanError> {
        let exists = self.dirs.contains_key(root) || self.sizes.contains_key(root);
        let is_dir = self.dirs.contains_key(root);
        let (mut scanner, mut step) = Scanner::start(root.to_string(), cap, exists, is_dir);
        loop {
            step = match step {
                Step::ListDirectory(p) => {
                    assert!(scanner.awaits_listing());
                    scanner.listed(self.listing(&p))
                }
                Step::ReadSize(p) => {
                    assert!(scanner.awaits_size());
                    scanner.measured(self.size(&p))
                }
                Step::Finished(v) => return Ok(v),
                Step::Failed(e) => return Err(e),
            };
        }
    }
}

fn names(v: &[ScannedFile]) -> Vec<String> {
    v.iter().map(|f| f.name.clone()).collect()
}

#[test]
fn empty_directory_gives_no_records() {
    let t = FakeTree::new("/music");
    assert_eq!(t.scan("/music", SOFT_CAP), Ok(Vec::new()));
}

#[test]
fn missing_root_is_not_found() {
    let t = FakeTree::new("/music");
    assert_eq!(t.scan("/nowhere", SOFT_CAP), Err(ScanError::NotFound));
}

#[test]
fn file_root_is_not_a_directory() {
    let mut t = FakeTree::new("/music");
    t.file("/music/song.wav", 10);
    assert_eq!(t.scan("/music/song.wav", SOFT_CAP), Err(ScanError::NotADirectory));
}

#[test]
fn uppercase_extension_matches_and_keeps_name() {
    let mut t = FakeTree::new("/music");
    t.file("/music/song.WAV", 1234);
    let v = t.scan("/music", SOFT_CAP).unwrap();
    assert_eq!(v.len(), 1);
    assert_eq!(v[0].name, "song.WAV");
    assert_eq!(v[0].path, "/music/song.WAV");
    assert_eq!(v[0].file_type, FileType::Audio);
    assert_eq!(v[0].file_type.as_string(), "audio");
    assert_eq!(v[0].size, 1234);
}

#[test]
fn mid_and_midi_are_midi_and_txt_is_excluded() {
    let mut t = FakeTree::new("/m");
    t.file("/m/track.mid", 1);
    t.file("/m/track.midi", 2);
    t.file("/m/notes.txt", 3);
    let v = t.scan("/m", SOFT_CAP).unwrap();
    assert_eq!(names(&v), vec!["track.mid", "track.midi"]);
    assert!(v.iter().all(|f| f.file_type == FileType::Midi));
    assert_eq!(v[1].file_type.as_string(), "midi");
}

#[test]
fn unknown_extensions_and_directories_are_not_reported() {
    let mut t = FakeTree::new("/r");
    t.dir("/r/beats.wav");
    t.file("/r/beats.wav/kick.flac", 5);
    t.file("/r/readme", 1);
    t.file("/r/.wav", 1);
    t.file("/r/cover.png", 1);
    t.file("/r/take.", 1);
    t.file("/r/loop.ogg", 7);
    let v = t.scan("/r", SOFT_CAP).unwrap();
    assert_eq!(names(&v), vec!["kick.flac", "loop.ogg"]);
    for f in &v {
        let ext = f.name.rsplit('.').next().unwrap().to_lowercase();
        let audio = ["wav", "mp3", "aiff", "flac", "m4a", "aac", "ogg", "wma"].contains(&ext.as_str());
        let midi = ["mid", "midi"].contains(&ext.as_str());
        assert!(audio != midi);
        assert_eq!(f.file_type == FileType::Audio, audio);
    }
}

#[test]
fn every_audio_extension_is_recognised() {
    let mut t = FakeTree::new("/a");
    for ext in ["wav", "MP3", "Aiff", "flac", "m4a", "AAC", "ogg", "wma"] {
        t.file(&format!("/a/x.{}", ext), 1);
    }
    let v = t.scan("/a", SOFT_CAP).unwrap();
    assert_eq!(v.len(), 8);
    assert!(v.iter().all(|f| f.file_type == FileType::Audio));
}

#[test]
fn results_follow_depth_first_order() {
    let mut t = FakeTree::new("/r");
    t.file("/r/a.wav", 1);
    t.dir("/r/sub");
    t.file("/r/sub/b.mid", 2);
    t.dir("/r/sub/deeper");
    t.file("/r/sub/deeper/c.mp3", 3);
    t.file("/r/sub/d.ogg", 4);
    t.file("/r/e.wma", 5);
    let v = t.scan("/r", SOFT_CAP).unwrap();
    assert_eq!(names(&v), vec!["a.wav", "b.mid", "c.mp3", "d.ogg", "e.wma"]);
    assert_eq!(v[2].path, "/r/sub/deeper/c.mp3");
    assert_eq!(v.iter().map(|f| f.size).collect::<Vec<_>>(), vec![1, 2, 3, 4, 5]);
}

#[test]
fn unreadable_subdirectory_fails_whole_scan() {
    let mut t = FakeTree::new("/r");
    t.dir("/r/good");
    t.file("/r/good/a.wav", 1);
    t.dir("/r/locked");
    t.file("/r/locked/b.wav", 1);
    t.dir("/r/more");
    t.file("/r/more/c.wav", 1);
    t.unreadable_dirs.push("/r/locked".to_string());
    let e = t.scan("/r", SOFT_CAP).unwrap_err();
    assert_eq!(e, ScanError::IoError("Failed to read directory: permission denied: /r/locked".to_string()));
    assert_eq!(e.message(), "Failed to read directory: permission denied: /r/locked");
}

#[test]
fn metadata_failure_fails_whole_scan() {
    let mut t = FakeTree::new("/r");
    t.file("/r/a.wav", 1);
    t.file("/r/b.wav", 1);
    t.unreadable_files.push("/r/b.wav".to_string());
    assert_eq!(
        t.scan("/r", SOFT_CAP),
        Err(ScanError::IoError("Failed to get file metadata: /r/b.wav".to_string()))
    );
}

#[test]
fn unreadable_file_of_unknown_type_is_never_read() {
    let mut t = FakeTree::new("/r");
    t.file("/r/a.txt", 1);
    t.file("/r/b.wav", 1);
    t.unreadable_files.push("/r/a.txt".to_string());
    assert_eq!(names(&t.scan("/r", SOFT_CAP).unwrap()), vec!["b.wav"]);
}

#[test]
fn large_tree_is_bounded_by_soft_cap() {
    let mut t = FakeTree::new("/big");
    for d in 0..200 {
        let dir = format!("/big/d{}", d);
        t.dir(&dir);
        for f in 0..100 {
            t.file(&format!("{}/f{}.wav", dir, f), 1);
        }
    }
    let v = t.scan("/big", SOFT_CAP).unwrap();
    assert_eq!(v.len(), 10000);
    assert_eq!(v.last().unwrap().path, "/big/d99/f99.wav");
}

#[test]
fn soft_cap_is_checked_only_before_descending() {
    let mut t = FakeTree::new("/r");
    t.file("/r/a.wav", 1);
    t.file("/r/b.wav", 1);
    t.dir("/r/sub");
    t.file("/r/sub/c.wav", 1);
    t.file("/r/d.wav", 1);
    t.file("/r/e.wav", 1);
    // Two matches reach the cap before `sub`, so it is skipped; later files still count.
    let v = t.scan("/r", 2).unwrap();
    assert_eq!(names(&v), vec!["a.wav", "b.wav", "d.wav", "e.wav"]);
    let v = t.scan("/r", 3).unwrap();
    assert_eq!(names(&v), vec!["a.wav", "b.wav", "c.wav", "d.wav", "e.wav"]);
}

#[test]
fn zero_cap_never_descends() {
    let mut t = FakeTree::new("/r");
    t.dir("/r/sub");
    t.file("/r/sub/c.wav", 1);
    t.file("/r/top.mid", 1);
    assert_eq!(names(&t.scan("/r", 0).unwrap()), vec!["top.mid"]);
}

#[test]
fn extension_is_text_after_last_dot() {
    assert_eq!(file_extension("song.wav"), Some("wav"));
    assert_eq!(file_extension("archive.tar.MP3"), Some("MP3"));
    assert_eq!(file_extension("take."), Some(""));
    assert_eq!(file_extension("readme"), None);
    assert_eq!(file_extension(".wav"), None);
    assert_eq!(file_extension(".."), None);
    assert_eq!(file_extension("..wav"), Some("wav"));
    assert_eq!(file_extension(""), None);
}

#[test]
fn lowered_extension_is_classified() {
    assert_eq!(classify_lowered("wav"), Some(FileType::Audio));
    assert_eq!(classify_lowered("m4a"), Some(FileType::Audio));
    assert_eq!(classify_lowered("mid"), Some(FileType::Midi));
    assert_eq!(classify_lowered("midi"), Some(FileType::Midi));
    assert_eq!(classify_lowered("WAV"), None);
    assert_eq!(classify_lowered("txt"), None);
    assert_eq!(classify_lowered(""), None);
}

#[test]
fn name_is_classified_without_regard_to_case() {
    assert_eq!(classify_name("Song.FLAC"), Some(FileType::Audio));
    assert_eq!(classify_name("x.MiDi"), Some(FileType::Midi));
    assert_eq!(classify_name("x.wav.txt"), None);
    assert_eq!(classify_name("wav"), None);
}

#[test]
fn root_errors_have_messages() {
    assert_eq!(ScanError::NotFound.message(), "Directory does not exist");
    assert_eq!(ScanError::NotADirectory.message(), "Path is not a directory");
}

#[test]
fn greeting_names_the_caller() {
    assert_eq!(greet("Ada"), "Hello, Ada! You've been greeted from Rust!");
}
