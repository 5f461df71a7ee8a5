use cgs::cli::{classify_arg, cli_options, parse_arg, CliArg};
use cgs::inline::{inline_file, inline_target, strip_newlines};
use cgs::locator::{file_name_from_segments, url_file_name, RepositoryLocator};
use cgs::model::{
    classify, file_target, resolve, CloneError, ContentEntry, DownloadTarget, InlineFilePayload,
    Mode, Payload, RawEntry, Source,
};
use cgs::path::{after_last_slash, file_path_in, parent_dir, split_path, strip_dir_path};
use cgs::traversal::{Action, Traversal};

fn s(x: &str) -> String {
    x.to_string()
}

fn strings(xs: &[&str]) -> Vec<String> {
    xs.iter().map(|x| x.to_string()).collect()
}

fn file_entry(path: &str, download_url: &str) -> RawEntry {
    RawEntry {
        entry_type: Some(s("file")),
        name: Some(path.rsplit('/').next().unwrap().to_string()),
        path: Some(s(path)),
        url: Some(format!("https://api.example.com/item/{}", path)),
        download_url: Some(s(download_url)),
    }
}

fn dir_entry(path: &str, url: &str) -> RawEntry {
    RawEntry {
        entry_type: Some(s("dir")),
        name: Some(path.rsplit('/').next().unwrap().to_string()),
        path: Some(s(path)),
        url: Some(s(url)),
        download_url: None,
    }
}

fn odd_entry(path: &str, kind: Option<&str>) -> RawEntry {
    RawEntry {
        entry_type: kind.map(s),
        name: None,
        path: Some(s(path)),
        url: None,
        download_url: None,
    }
}

const ROOT: &str = "https://api.github.com/repos/acme/widgets/contents/src/lib?ref=main";
const SUB: &str = "https://api.github.com/repos/acme/widgets/contents/src/lib/sub?ref=main";
const RAW: &str = "https://raw.githubusercontent.com/acme/widgets/main/";

/// The synthetic tree: `src/lib/a.txt`, then the directory `src/lib/sub` holding `b.txt`.
fn synthetic_listing(url: &str) -> Result<Payload, CloneError> {
    if url == ROOT {
        Ok(Payload::Entries(vec![
            file_entry("src/lib/a.txt", &format!("{}src/lib/a.txt", RAW)),
            dir_entry("src/lib/sub", SUB),
        ]))
    } else if url == SUB {
        Ok(Payload::Entries(vec![file_entry(
            "src/lib/sub/b.txt",
            &format!("{}src/lib/sub/b.txt", RAW),
        )]))
    } else {
        Err(CloneError::ApiRequestFailed)
    }
}

/// Drives a traversal to its end, answering fetches with `listing`; gives the local paths
/// written, the URLs fetched and the failures reported, in order.
fn run(
    loc: &RepositoryLocator,
    mode: Mode,
    listing: &dyn Fn(&str) -> Result<Payload, CloneError>,
) -> (Vec<String>, Vec<String>, Vec<CloneError>) {
    let mut t = Traversal::new(loc, mode);
    let mut written = Vec::new();
    let mut fetched = Vec::new();
    let mut reported = Vec::new();
    let mut action = t.step();
    let mut rounds = 0;
    loop {
        rounds += 1;
        assert!(rounds < 1000);
        action = match action {
            Action::Fetch(u) => {
                fetched.push(u.clone());
                t.on_listing(listing(&u))
            }
            Action::Write(target) => {
                written.push(target.local_file_path());
                t.step()
            }
            Action::Report(e) => {
                reported.push(e);
                t.step()
            }
            Action::Continue => t.step(),
            Action::Done => break,
        };
    }
    (written, fetched, reported)
}

fn widgets() -> RepositoryLocator {
    RepositoryLocator::parse("https://github.com/acme/widgets/tree/main/src/lib").unwrap()
}

#[test]
fn parse_decomposes_browsing_url() {
    let loc = widgets();
    assert_eq!(loc.host, "github.com");
    assert_eq!(loc.owner, "acme");
    assert_eq!(loc.repo, "widgets");
    assert_eq!(loc.branch, "main");
    assert_eq!(loc.subdir_path, strings(&["src", "lib"]));
    assert_eq!(loc.subdir(), "src/lib");
    assert_eq!(loc.target_dir_name(), "lib");
    assert_eq!(loc.api_url(), ROOT);
}

#[test]
fn parse_with_exactly_four_segments_is_repository_root() {
    let loc = RepositoryLocator::parse("https://github.com/acme/widgets/tree/dev").unwrap();
    assert_eq!(loc.branch, "dev");
    assert!(loc.subdir_path.is_empty());
    assert_eq!(loc.subdir(), "");
    assert_eq!(loc.target_dir_name(), "dev");
    assert_eq!(loc.api_url(), "https://api.github.com/repos/acme/widgets/contents/?ref=dev");
}

#[test]
fn parse_with_three_segments_is_missing_a_segment() {
    let r = RepositoryLocator::parse("https://github.com/acme/widgets/tree");
    assert_eq!(r.unwrap_err(), CloneError::MissingPathSegment);
}

#[test]
fn parse_refuses_text_that_is_no_url() {
    let r = RepositoryLocator::parse("github.com acme widgets");
    assert_eq!(r.unwrap_err(), CloneError::InvalidUrl);
}

#[test]
fn from_parts_reads_segments_in_place() {
    let loc = RepositoryLocator::from_parts(
        Some(s("example.org")),
        Some(strings(&["o", "r", "blob", "b", "x", "y", "z"])),
    )
    .unwrap();
    assert_eq!((loc.owner.as_str(), loc.repo.as_str(), loc.branch.as_str()), ("o", "r", "b"));
    assert_eq!(loc.subdir(), "x/y/z");
    assert_eq!(loc.api_url(), "https://api.example.org/repos/o/r/contents/x/y/z?ref=b");
    let short = RepositoryLocator::from_parts(Some(s("h")), Some(strings(&["o", "r", "tree"])));
    assert_eq!(short.unwrap_err(), CloneError::MissingPathSegment);
    let none = RepositoryLocator::from_parts(Some(s("h")), None);
    assert_eq!(none.unwrap_err(), CloneError::MissingPathSegment);
    let hostless = RepositoryLocator::from_parts(None, Some(strings(&["o", "r", "t", "b"])));
    assert_eq!(hostless.unwrap_err(), CloneError::InvalidUrl);
}

#[test]
fn current_dir_only_roots_at_first_match() {
    assert_eq!(resolve("a/b/c/file.txt", "b", Mode::CurrentDirOnly), "b/c");
    assert_eq!(strip_dir_path("a/b/c", "b"), "b/c");
    assert_eq!(strip_dir_path("x/b/y/b/z", "b"), "b/y/b/z");
}

#[test]
fn current_dir_only_without_match_keeps_whole_path() {
    assert_eq!(strip_dir_path("a/b/c", "q"), "a/b/c");
    assert_eq!(resolve("a/b/c/file.txt", "q", Mode::CurrentDirOnly), "a/b/c");
}

#[test]
fn current_dir_only_matches_whole_segments_exactly() {
    assert_eq!(strip_dir_path("a/bb/c", "b"), "a/bb/c");
    assert_eq!(strip_dir_path("a/B/c", "b"), "a/B/c");
}

#[test]
fn current_dir_only_never_matches_the_file_name() {
    assert_eq!(resolve("a/c/b", "b", Mode::CurrentDirOnly), "a/c");
}

#[test]
fn full_path_keeps_parent_directory() {
    assert_eq!(resolve("src/lib/sub/b.txt", "lib", Mode::FullPath), "src/lib/sub");
    assert_eq!(resolve("top.txt", "lib", Mode::FullPath), "");
    assert_eq!(parent_dir("a//b/c.txt"), "a/b");
}

#[test]
fn split_drops_empty_segments() {
    assert_eq!(split_path("/a//b/c/"), strings(&["a", "b", "c"]));
    assert!(split_path("").is_empty());
}

#[test]
fn file_name_comes_from_download_url() {
    assert_eq!(url_file_name(&format!("{}src/lib/a.txt", RAW)), "a.txt");
    assert_eq!(url_file_name(&format!("{}src/lib/a.txt?token=T", RAW)), "a.txt");
    assert_eq!(url_file_name(&format!("{}src/lib/a.txt#top", RAW)), "a.txt");
    assert_eq!(url_file_name("no-slash"), "no-slash");
    assert_eq!(url_file_name("not a url/b.txt"), "b.txt");
}

#[test]
fn file_name_from_segments_takes_the_last() {
    assert_eq!(file_name_from_segments("https://h/x/y.bin?q=1", Some(strings(&["x", "y.bin"]))), "y.bin");
    assert_eq!(file_name_from_segments("odd/z", Some(Vec::new())), "z");
    assert_eq!(file_name_from_segments("mailto:a/b", None), "b");
}

#[test]
fn text_after_last_slash() {
    assert_eq!(after_last_slash("a/b/c?x"), "c?x");
    assert_eq!(after_last_slash("ends/"), "");
    assert_eq!(after_last_slash("plain"), "plain");
}

#[test]
fn file_with_query_in_download_url_lands_at_its_path() {
    let t = file_target(
        "src/lib/a.txt",
        format!("{}src/lib/a.txt?token=T", RAW),
        "lib",
        Mode::FullPath,
    );
    assert_eq!(t.local_file_path(), "src/lib/a.txt");
}

#[test]
fn file_path_joins_directory_and_name() {
    assert_eq!(file_path_in("src/lib", "a.txt"), "src/lib/a.txt");
    assert_eq!(file_path_in("", "a.txt"), "a.txt");
}

#[test]
fn file_target_resolves_directory_and_name() {
    let t = file_target("src/lib/sub/b.txt", format!("{}src/lib/sub/b.txt", RAW), "lib", Mode::CurrentDirOnly);
    assert_eq!(t.local_directory, "lib/sub");
    assert_eq!(t.file_name, "b.txt");
    assert_eq!(t.local_file_path(), "lib/sub/b.txt");
    match t.source {
        Source::Url(u) => assert_eq!(u, format!("{}src/lib/sub/b.txt", RAW)),
        Source::InlineBytes(_) => panic!("expected a URL source"),
    }
}

#[test]
fn classify_tells_kinds_apart() {
    match classify(dir_entry("d", SUB)) {
        Ok(ContentEntry::Directory { listing_url, .. }) => assert_eq!(listing_url, SUB),
        other => panic!("unexpected {:?}", other),
    }
    match classify(file_entry("d/f", "https://x/f")) {
        Ok(ContentEntry::File { path, download_url }) => {
            assert_eq!((path.as_str(), download_url.as_str()), ("d/f", "https://x/f"))
        }
        other => panic!("unexpected {:?}", other),
    }
    assert_eq!(classify(odd_entry("l", Some("symlink"))).unwrap_err(), CloneError::UnknownEntryType);
    assert_eq!(classify(odd_entry("l", None)).unwrap_err(), CloneError::UnknownEntryType);
    assert_eq!(classify(odd_entry("l", Some("dir"))).unwrap_err(), CloneError::ResponsePayloadInvalid);
    assert_eq!(classify(odd_entry("l", Some("file"))).unwrap_err(), CloneError::ResponsePayloadInvalid);
}

#[test]
fn end_to_end_full_path() {
    let (written, fetched, reported) = run(&widgets(), Mode::FullPath, &synthetic_listing);
    assert_eq!(written, strings(&["src/lib/a.txt", "src/lib/sub/b.txt"]));
    assert_eq!(fetched, strings(&[ROOT, SUB]));
    assert!(reported.is_empty());
}

#[test]
fn end_to_end_current_dir_only() {
    let (written, _, reported) = run(&widgets(), Mode::CurrentDirOnly, &synthetic_listing);
    assert_eq!(written, strings(&["lib/a.txt", "lib/sub/b.txt"]));
    assert!(reported.is_empty());
}

#[test]
fn running_twice_gives_the_same_files() {
    let first = run(&widgets(), Mode::FullPath, &synthetic_listing);
    let second = run(&widgets(), Mode::FullPath, &synthetic_listing);
    assert_eq!(first, second);
}

#[test]
fn traversal_is_depth_first_pre_order() {
    let listing = |u: &str| -> Result<Payload, CloneError> {
        if u == ROOT {
            Ok(Payload::Entries(vec![
                file_entry("src/lib/1.txt", "https://r/1.txt"),
                dir_entry("src/lib/d", "https://api/d"),
                file_entry("src/lib/3.txt", "https://r/3.txt"),
            ]))
        } else if u == "https://api/d" {
            Ok(Payload::Entries(vec![
                file_entry("src/lib/d/2a.txt", "https://r/2a.txt"),
                dir_entry("src/lib/d/e", "https://api/e"),
            ]))
        } else if u == "https://api/e" {
            Ok(Payload::Entries(vec![file_entry("src/lib/d/e/2b.txt", "https://r/2b.txt")]))
        } else {
            Err(CloneError::ApiRequestFailed)
        }
    };
    let (written, _, _) = run(&widgets(), Mode::FullPath, &listing);
    assert_eq!(
        written,
        strings(&["src/lib/1.txt", "src/lib/d/2a.txt", "src/lib/d/e/2b.txt", "src/lib/3.txt"])
    );
}

#[test]
fn unknown_entry_type_is_reported_and_earlier_siblings_stay() {
    let listing = |u: &str| -> Result<Payload, CloneError> {
        if u == ROOT {
            Ok(Payload::Entries(vec![
                file_entry("src/lib/a.txt", "https://r/a.txt"),
                dir_entry("src/lib/d", "https://api/d"),
                file_entry("src/lib/z.txt", "https://r/z.txt"),
            ]))
        } else if u == "https://api/d" {
            Ok(Payload::Entries(vec![
                file_entry("src/lib/d/b.txt", "https://r/b.txt"),
                odd_entry("src/lib/d/link", Some("symlink")),
                file_entry("src/lib/d/c.txt", "https://r/c.txt"),
            ]))
        } else {
            Err(CloneError::ApiRequestFailed)
        }
    };
    let (written, _, reported) = run(&widgets(), Mode::FullPath, &listing);
    assert_eq!(written, strings(&["src/lib/a.txt", "src/lib/d/b.txt", "src/lib/z.txt"]));
    assert_eq!(reported, vec![CloneError::UnknownEntryType]);
}

#[test]
fn failed_subtree_listing_does_not_stop_siblings() {
    let listing = |u: &str| -> Result<Payload, CloneError> {
        if u == ROOT {
            Ok(Payload::Entries(vec![
                dir_entry("src/lib/broken", "https://api/broken"),
                dir_entry("src/lib/odd", "https://api/odd"),
                file_entry("src/lib/a.txt", "https://r/a.txt"),
            ]))
        } else if u == "https://api/odd" {
            Ok(Payload::Other)
        } else {
            Err(CloneError::ResponsePayloadInvalid)
        }
    };
    let (written, fetched, reported) = run(&widgets(), Mode::FullPath, &listing);
    assert_eq!(written, strings(&["src/lib/a.txt"]));
    assert_eq!(fetched.len(), 3);
    assert_eq!(
        reported,
        vec![CloneError::ResponsePayloadInvalid, CloneError::InvalidApiResponse]
    );
}

#[test]
fn root_listing_failure_is_reported() {
    let (written, fetched, reported) =
        run(&widgets(), Mode::FullPath, &|_: &str| Err(CloneError::ApiRequestFailed));
    assert!(written.is_empty());
    assert_eq!(fetched, strings(&[ROOT]));
    assert_eq!(reported, vec![CloneError::ApiRequestFailed]);
}

#[test]
fn a_listing_url_is_fetched_once() {
    let listing = |u: &str| -> Result<Payload, CloneError> {
        if u == ROOT {
            Ok(Payload::Entries(vec![
                dir_entry("src/lib", ROOT),
                dir_entry("src/lib/d", "https://api/d"),
                dir_entry("src/lib/d2", "https://api/d"),
            ]))
        } else {
            Ok(Payload::Entries(vec![file_entry("src/lib/d/x.txt", "https://r/x.txt")]))
        }
    };
    let (written, fetched, _) = run(&widgets(), Mode::FullPath, &listing);
    assert_eq!(fetched, strings(&[ROOT, "https://api/d"]));
    assert_eq!(written, strings(&["src/lib/d/x.txt"]));
}

fn inline_payload(kind: &str, encoding: &str, content: &str) -> InlineFilePayload {
    InlineFilePayload {
        entry_type: Some(s(kind)),
        name: Some(s("hello.txt")),
        encoding: Some(s(encoding)),
        content: Some(s(content)),
    }
}

fn inline_bytes(t: &DownloadTarget) -> Vec<u8> {
    match &t.source {
        Source::InlineBytes(b) => b.clone(),
        Source::Url(_) => panic!("expected inline bytes"),
    }
}

#[test]
fn inline_content_decodes_to_the_file_bytes() {
    let fetched_bytes = b"hello, world\n".to_vec();
    let t = inline_file(&inline_payload("file", "base64", "aGVsbG8s\nIHdvcmxk\nCg==\n")).unwrap();
    assert_eq!(inline_bytes(&t), fetched_bytes);
    assert_eq!(t.local_directory, "");
    assert_eq!(t.local_file_path(), "hello.txt");
}

#[test]
fn inline_content_that_is_no_base64_is_invalid_payload() {
    let r = inline_file(&inline_payload("file", "base64", "@@@"));
    assert_eq!(r.unwrap_err(), CloneError::ResponsePayloadInvalid);
}

#[test]
fn inline_object_of_another_kind_is_invalid_response() {
    let r = inline_file(&inline_payload("file", "utf-8", "aGk="));
    assert_eq!(r.unwrap_err(), CloneError::InvalidApiResponse);
    let r = inline_file(&inline_payload("dir", "base64", "aGk="));
    assert_eq!(r.unwrap_err(), CloneError::InvalidApiResponse);
}

#[test]
fn inline_target_needs_decoded_bytes() {
    let t = inline_target(s("n.bin"), Some(vec![1, 2, 3])).unwrap();
    assert_eq!(inline_bytes(&t), vec![1, 2, 3]);
    assert_eq!(t.file_name, "n.bin");
    assert_eq!(inline_target(s("n.bin"), None).unwrap_err(), CloneError::ResponsePayloadInvalid);
}

#[test]
fn strip_newlines_removes_only_newlines() {
    assert_eq!(strip_newlines("ab\ncd\n\nef"), "abcdef");
    assert_eq!(strip_newlines("a b\tc"), "a b\tc");
}

#[test]
fn single_object_listing_writes_inline_file() {
    let listing = |_: &str| -> Result<Payload, CloneError> {
        Ok(Payload::Single(inline_payload("file", "base64", "aGk=")))
    };
    let mut t = Traversal::new(&widgets(), Mode::FullPath);
    match t.step() {
        Action::Fetch(u) => match t.on_listing(listing(&u)) {
            Action::Write(target) => {
                assert_eq!(inline_bytes(&target), b"hi".to_vec());
                assert_eq!(target.local_file_path(), "hello.txt");
            }
            other => panic!("unexpected {:?}", other),
        },
        other => panic!("unexpected {:?}", other),
    }
}

#[test]
fn classify_arg_sorts_by_form() {
    assert_eq!(
        classify_arg("--url=https://x/y", true, true),
        CliArg::WithValue { key: s("url"), value: s("https://x/y") }
    );
    assert_eq!(classify_arg("-c", false, true), CliArg::Flag { key: s("c") });
    assert_eq!(classify_arg("plain", false, false), CliArg::Plain(s("plain")));
    assert_eq!(classify_arg("--odd", true, true), CliArg::Flag { key: s("odd") });
}

#[test]
fn parse_arg_uses_flag_patterns() {
    assert_eq!(parse_arg("--curdir"), Some(CliArg::Flag { key: s("curdir") }));
    assert_eq!(parse_arg("-h"), Some(CliArg::Flag { key: s("h") }));
    assert_eq!(
        parse_arg("-u:https://github.com/a/b"),
        Some(CliArg::WithValue { key: s("u"), value: s("https://github.com/a/b") })
    );
    assert_eq!(parse_arg("https://github.com/a/b"), Some(CliArg::Plain(s("https://github.com/a/b"))));
    assert_eq!(parse_arg("-"), Some(CliArg::Plain(s("-"))));
    assert_eq!(parse_arg("src/lib"), Some(CliArg::Plain(s("src/lib"))));
}

#[test]
fn cli_options_reads_flags_and_url() {
    let args: Vec<CliArg> = ["cgs", "-c", "https://github.com/a/b/tree/main/x"]
        .iter()
        .map(|a| parse_arg(a).unwrap())
        .collect();
    let o = cli_options(&args);
    assert!(o.curdir && !o.help && !o.version);
    assert_eq!(o.url, Some(s("https://github.com/a/b/tree/main/x")));
    let o = cli_options(&vec![CliArg::Plain(s("cgs")), CliArg::Flag { key: s("version") }]);
    assert!(o.version && !o.curdir);
    assert_eq!(o.url, None);
}
