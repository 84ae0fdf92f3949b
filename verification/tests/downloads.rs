use velo::downloads::{
    download_name, format_byte_count, initial_download_name, numbered_download_name, size_unit,
    size_unit_name, DownloadAction, DownloadName, DownloadState, NameSearch,
};

fn parts(name: &str, stem: &str, ext: Option<&str>) -> DownloadName {
    DownloadName { name: name.to_string(), stem: stem.to_string(), extension: ext.map(|e| e.to_string()) }
}

#[test]
fn listed_names_come_from_the_address() {
    assert_eq!(initial_download_name("https://a.org/files/report.pdf"), "report.pdf");
    assert_eq!(initial_download_name("https://a.org/files/"), "Download");
    assert_eq!(initial_download_name(""), "Download");
    assert_eq!(initial_download_name("plain"), "plain");
}

#[test]
fn download_names_split_like_paths() {
    assert_eq!(download_name("report.pdf"), parts("report.pdf", "report", Some("pdf")));
    assert_eq!(download_name(""), parts("download", "download", None));
    assert_eq!(download_name("archive.tar.gz"), parts("archive.tar.gz", "archive.tar", Some("gz")));
    assert_eq!(download_name(".bashrc"), parts(".bashrc", ".bashrc", None));
    assert_eq!(download_name("noext"), parts("noext", "noext", None));
    assert_eq!(download_name("trailing."), parts("trailing.", "trailing", Some("")));
    assert_eq!(download_name("dir/file.txt"), parts("file.txt", "file", Some("txt")));
    assert_eq!(download_name("dir/file.txt/."), parts("file.txt", "file", Some("txt")));
    assert_eq!(download_name(".."), parts("download", "download", None));
    assert_eq!(download_name("a/.."), parts("download", "download", None));
    assert_eq!(download_name("/"), parts("download", "download", None));
    assert_eq!(download_name("."), parts("download", "download", None));
}

#[test]
fn download_names_never_leave_the_folder() {
    assert_eq!(download_name("../../.bashrc"), parts(".bashrc", ".bashrc", None));
    assert_eq!(download_name("/etc/cron.d/job"), parts("job", "job", None));
    let dir = std::path::Path::new("/home/u/Downloads");
    for s in ["../../.bashrc", "/etc/cron.d/job", "..", "a/../../b.txt", "x/./", "/", ""] {
        let d = download_name(s);
        for attempt in [0u64, 1, 2, 10] {
            let path = dir.join(d.candidate(attempt));
            assert_eq!(path.parent(), Some(dir), "{s:?} {attempt}");
        }
    }
}

#[test]
fn download_names_agree_with_std_path() {
    for name in ["report.pdf", "a.b.c", ".x", "x.", "d/e.f", "d/e.f/", "d/./e", "./", "a//b.c//"] {
        let p = std::path::Path::new(name);
        let file = p.file_name().and_then(|s| s.to_str()).unwrap_or("download");
        let f = std::path::Path::new(file);
        let expected_stem = f.file_stem().and_then(|s| s.to_str()).unwrap_or("download");
        let expected_ext = f.extension().and_then(|s| s.to_str());
        assert_eq!(download_name(name), parts(file, expected_stem, expected_ext), "{name}");
    }
}

#[test]
fn the_search_tries_the_name_then_numbered_names() {
    let d = download_name("report.pdf");
    assert_eq!(d.candidate(0), "report.pdf");
    assert_eq!(d.candidate(1), "report (1).pdf");
    assert_eq!(d.candidate(2), "report (2).pdf");
    let mut search = NameSearch::new();
    assert!(!search.settle(true));
    assert!(!search.settle(true));
    assert_eq!(search.attempt, 2);
    assert!(search.settle(false));
    assert_eq!(search.attempt, 2);
    assert_eq!(d.candidate(search.attempt), "report (2).pdf");
}

#[test]
fn numbered_names() {
    assert_eq!(numbered_download_name("report", Some("pdf"), 1), "report (1).pdf");
    assert_eq!(numbered_download_name("report", None, 12), "report (12)");
    assert_eq!(numbered_download_name("x", Some(""), 0), "x (0).");
    assert_ne!(numbered_download_name("r", None, 1), numbered_download_name("r", None, 11));
}

#[test]
fn size_units() {
    assert_eq!(size_unit(0), 0);
    assert_eq!(size_unit(1023), 0);
    assert_eq!(size_unit(1024), 1);
    assert_eq!(size_unit(1024 * 1024 - 1), 1);
    assert_eq!(size_unit(1024 * 1024), 2);
    assert_eq!(size_unit(1024 * 1024 * 1024), 3);
    assert_eq!(size_unit(u64::MAX), 3);
    assert_eq!(size_unit_name(0), "B");
    assert_eq!(size_unit_name(3), "GB");
    assert_eq!(format_byte_count(512), "512 B");
    assert_eq!(format_byte_count(0), "0 B");
}

#[test]
fn download_states() {
    let mut s = DownloadState::started();
    assert_eq!(s.action(), DownloadAction::Cancel);
    s.finish();
    assert_eq!(s.action(), DownloadAction::ShowInFolder);
    let mut f = DownloadState::started();
    f.fail();
    assert_eq!(f, DownloadState::Failed);
    assert_eq!(f.action(), DownloadAction::RemoveRow);
}

#[test]
fn a_failed_download_stays_failed_when_it_finishes() {
    let mut s = DownloadState::started();
    s.fail();
    s.finish();
    assert_eq!(s, DownloadState::Failed);
    assert_eq!(s.action(), DownloadAction::RemoveRow);
    let mut done = DownloadState::started();
    done.finish();
    done.finish();
    assert_eq!(done, DownloadState::Done);
}
