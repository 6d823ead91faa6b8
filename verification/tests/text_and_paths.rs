use std::path::Path;
use workspace::auto_save::saves_on_pause;
use workspace::diff::{
    diff_title, hunk_range, hunk_replacement, hunk_text, next_header, staging_target, DiffHunk,
};
use workspace::editor_manners::{
    editor_cli_args, external_command, path_with_lines, program_to_find, terminal_command, ExternalApp, FileLine,
    Platform,
};
use workspace::failure::{failure_gist, failure_text};
use workspace::file_drop::{
    destination_name, markdown_image_link, place_image, relative_link, unused_destination, ImagePlace,
};
use workspace::font_settings::{font_families_from, refresh_font_settings, FontFamilies};
use workspace::image_view::{
    header_counts_are_small, human_size, image_format_for, is_image_path, shown_size, ImageFormat, ImageView,
};
use workspace::jpeg::{is_jpeg, jpeg_counts_are_small, scan_start};
use workspace::paths::{
    components_of, extension_of, file_name, parent_folder, path_ancestors, path_in, path_lies_in,
    relative_to, stem_of,
};
use workspace::text::{
    decimal_text, joined, lines_of, parse_number, split_at_each, text_contains, trimmed, trimmed_end,
    words_of,
};
use workspace::tiff::{is_tiff, tiff_counts_are_small};

fn strings(list: &[&str]) -> Vec<String> {
    list.iter().map(|s| s.to_string()).collect()
}

#[test]
fn texts_are_trimmed_like_std_does() {
    for s in ["", "  ", "a", " a b\u{3000}", "\u{85}x\u{a0}", "\n\ty\r\n", "日本 "] {
        assert_eq!(trimmed(s), s.trim());
        assert_eq!(trimmed_end(s), s.trim_end());
    }
}

#[test]
fn texts_are_split_like_std_does() {
    for s in ["", "a", "a\nb", "a\nb\n", "\n", "a\r\nb\r\n", "a\r\nb\r", "x\n\ny"] {
        assert_eq!(lines_of(s), s.lines().map(str::to_string).collect::<Vec<_>>());
        assert_eq!(
            split_at_each(s, '\n'),
            s.split('\n').map(str::to_string).collect::<Vec<_>>()
        );
        assert_eq!(
            words_of(s),
            s.split_whitespace().map(str::to_string).collect::<Vec<_>>()
        );
    }
    assert_eq!(words_of("  oauth テスト\u{3000}x "), strings(&["oauth", "テスト", "x"]));
}

#[test]
fn texts_are_joined_and_searched_like_std_does() {
    let list = strings(&["a", "", "c"]);
    assert_eq!(joined(&list, "/"), list.join("/"));
    assert_eq!(joined(&Vec::new(), "/"), "");
    for (s, part) in [("abc", "bc"), ("abc", ""), ("", "a"), ("aab", "ab"), ("abc", "ac")] {
        assert_eq!(text_contains(s, part), s.contains(part));
    }
}

#[test]
fn numbers_are_written_and_read() {
    for n in [0u64, 7, 10, 99, 1000, u64::MAX] {
        assert_eq!(decimal_text(n), n.to_string());
        assert_eq!(parse_number(&n.to_string()), Some(n));
    }
    assert_eq!(parse_number(""), None);
    assert_eq!(parse_number("1a"), None);
    assert_eq!(parse_number("18446744073709551616"), None);
    assert_eq!(parse_number("007"), Some(7));
}

#[test]
fn paths_fall_into_components_like_std_does() {
    for p in ["", "/", "a", "/a/b", "a//b/", "./a", "a/./b", "/a/../b", ".", "a/.."] {
        let path = std::path::Path::new(p);
        let expected: Vec<String> = path
            .components()
            .map(|c| c.as_os_str().to_string_lossy().to_string())
            .collect();
        assert_eq!(components_of(p), expected, "{p}");
        assert_eq!(
            file_name(p),
            path.file_name().map(|n| n.to_string_lossy().to_string()),
            "{p}"
        );
    }
    assert_eq!(parent_folder("/a/b").as_deref(), Some("/a"));
    assert_eq!(parent_folder("/a").as_deref(), Some("/"));
    assert_eq!(parent_folder("a").as_deref(), Some(""));
    assert_eq!(parent_folder("/"), None);
    assert!(path_lies_in("/a/b", "/a") && path_lies_in("/a", "/a"));
    assert!(!path_lies_in("/ab", "/a"));
    assert_eq!(path_in("/a", "b"), "/a/b");
    assert_eq!(path_in("/", "b"), "/b");
    assert_eq!(path_in("", "b"), "b");
}

#[test]
fn names_fall_into_stem_and_extension_like_std_does() {
    for name in ["a.png", ".bashrc", "a.tar.gz", "noext", "a.", ".a.b"] {
        let path = std::path::Path::new(name);
        assert_eq!(
            stem_of(name),
            path.file_stem().map(|s| s.to_string_lossy().to_string()).unwrap()
        );
        assert_eq!(
            extension_of(name),
            path.extension().map(|s| s.to_string_lossy().to_string())
        );
    }
}

#[test]
fn failure_gist_keeps_short_output_whole() {
    let (gist, truncated) = failure_gist("fatal: not a git repository\n");
    assert_eq!(gist, "fatal: not a git repository");
    assert!(!truncated);
}

#[test]
fn failure_gist_drops_hints_and_offers_the_rest() {
    let push = "To github.com:owner/repo.git\n ! [rejected]        main -> main (fetch first)\n\
            error: failed to push some refs to 'github.com:owner/repo.git'\n\
            hint: Updates were rejected because the remote contains work that you do not\n\
            hint: have locally.\n";
    let (gist, truncated) = failure_gist(push);
    assert_eq!(gist.lines().count(), 3);
    assert!(gist.contains("[rejected]") && gist.contains("error: failed to push"));
    assert!(!gist.contains("hint:"));
    assert!(truncated, "the hints can still be read");

    let hook: String = (1..=10).map(|line| format!("lint error {line}\n")).collect();
    let (gist, truncated) = failure_gist(&hook);
    assert_eq!(gist, "lint error 1\nlint error 2\nlint error 3");
    assert!(truncated);
}

#[test]
fn failure_gist_clips_long_lines() {
    let (gist, truncated) = failure_gist(&"x".repeat(500));
    assert_eq!(gist.chars().count(), 241, "240 characters and an ellipsis");
    assert!(gist.ends_with('…') && truncated);
}

#[test]
fn blank_output_has_no_gist() {
    assert_eq!(failure_gist("\n  \n"), (String::new(), false));
    assert_eq!(failure_text("push failed", ""), "push failed");
    assert_eq!(failure_text("push failed", "no remote"), "push failed\nno remote");
}

#[test]
fn settings_files_are_not_saved_mid_edit() {
    let config = Some("/home/me/.config/necoder".to_string());
    assert!(saves_on_pause("/work/app/src/main.rs", &config));
    assert!(!saves_on_pause("/home/me/.config/necoder/settings.json", &config));
    assert!(!saves_on_pause("/work/app/.necoder/settings.json", &config));
    assert!(saves_on_pause("/work/app/settings.json", &None));
}

#[test]
fn links_are_relative_and_safe_inside_markdown() {
    assert_eq!(markdown_image_link("/p/docs/shot.png", "/p/docs"), "![shot](shot.png)");
    assert_eq!(
        markdown_image_link("/p/assets/logo.svg", "/p/docs/guide"),
        "![logo](../../assets/logo.svg)"
    );
    assert_eq!(
        markdown_image_link("/p/docs/Screen Shot (2).png", "/p/docs"),
        "![Screen Shot (2)](Screen%20Shot%20%282%29.png)",
        "spaces and brackets are escaped"
    );
    assert_eq!(
        markdown_image_link("/p/docs/a[1].png", "/p/docs"),
        "![a\\[1\\]](a[1].png)"
    );
}

#[test]
fn links_without_a_common_root_are_whole_paths() {
    assert_eq!(relative_link("docs", "C:\\pics\\a.png"), "C:/pics/a.png");
    assert_eq!(relative_link("/a/b", "/a/c/d"), "../c/d");
}

#[test]
fn names_that_are_taken_get_a_number() {
    assert_eq!(destination_name("shot.png", 0), "shot.png");
    assert_eq!(destination_name("shot.png", 2), "shot-2.png");
    assert_eq!(destination_name("shot", 12), "shot-12");
    assert_eq!(
        unused_destination("/p", "a.png", &vec![true, true, false]).as_deref(),
        Some("/p/a-2.png")
    );
    assert_eq!(unused_destination("/p", "a.png", &vec![true; 1000]), None);
    assert_eq!(
        unused_destination("/p", "a.png", &vec![true; 999]).as_deref(),
        Some("/p/a-999.png")
    );
}

#[test]
fn images_of_the_project_stay_where_they_are() {
    let free = vec![false];
    assert!(matches!(place_image("/p/img/a.png", "/p/docs", "/p", &free), ImagePlace::Here));
    assert!(matches!(
        place_image("/x/a.png", "/p/docs", "/p", &vec![true]),
        ImagePlace::Copied(path) if path == "/p/docs/a-1.png"
    ));
    assert!(matches!(place_image("/x/..", "/p/docs", "/p", &free), ImagePlace::NoName));
    assert!(matches!(
        place_image("/x/a.png", "/p/docs", "/p", &vec![true; 1000]),
        ImagePlace::NoDestination
    ));
}

#[test]
fn editors_get_the_folder_and_the_file_with_its_line() {
    let folder = "/work/necoder";
    let file = |line: usize| Some(FileLine { path: "/work/necoder/src/main.rs".to_string(), line });
    assert_eq!(
        editor_cli_args(ExternalApp::VsCode, folder, &file(12)),
        vec!["/work/necoder", "--goto", "/work/necoder/src/main.rs:12"]
    );
    assert_eq!(
        editor_cli_args(ExternalApp::Cursor, folder, &file(3)),
        vec!["/work/necoder", "--goto", "/work/necoder/src/main.rs:3"]
    );
    assert_eq!(
        editor_cli_args(ExternalApp::Zed, folder, &file(7)),
        vec!["/work/necoder", "/work/necoder/src/main.rs:7"]
    );
    assert_eq!(
        editor_cli_args(ExternalApp::Zed, folder, &None),
        vec!["/work/necoder"],
        "only the folder without a file"
    );
}

#[test]
fn paths_with_lines_are_transcript_links() {
    assert_eq!(path_with_lines("src/a.rs", 4, 4), "src/a.rs:4");
    assert_eq!(path_with_lines("src/a.rs", 10, 14), "src/a.rs:10-14");
}

#[test]
fn terminals_are_opened_on_every_platform() {
    let mac = terminal_command(Platform::MacOs, "/w", &None).unwrap();
    assert_eq!((mac.program.as_str(), mac.args), ("open", strings(&["-a", "Terminal", "/w"])));
    let wt = terminal_command(Platform::Windows, "C:\\w", &Some("C:\\wt.exe".to_string())).unwrap();
    assert_eq!((wt.program.as_str(), wt.args), ("wt", strings(&["-d", "C:\\w"])));
    let cmd = terminal_command(Platform::Windows, "C:\\w", &None).unwrap();
    assert_eq!(cmd.args, strings(&["/c", "start", "cmd", "/k", "cd /d \"C:\\w\""]));
    let x = terminal_command(Platform::Other, "/w", &Some("/usr/bin/xt".to_string())).unwrap();
    assert_eq!((x.program.as_str(), x.args), ("/usr/bin/xt", strings(&["--working-directory=/w"])));
    assert!(terminal_command(Platform::Other, "/w", &None).is_none());
    let opened = external_command(ExternalApp::Zed, Platform::MacOs, &None, "/w", &None).unwrap();
    assert_eq!((opened.program.as_str(), opened.args), ("open", strings(&["-a", "Zed", "/w"])));
    assert!(external_command(ExternalApp::Zed, Platform::Other, &None, "/w", &None).is_none());
    assert_eq!(program_to_find(ExternalApp::VsCode, Platform::Other), Some("code"));
    assert_eq!(program_to_find(ExternalApp::Terminal, Platform::Windows), Some("wt"));
    assert_eq!(
        program_to_find(ExternalApp::Terminal, Platform::Other),
        Some("x-terminal-emulator")
    );
    assert_eq!(program_to_find(ExternalApp::Terminal, Platform::MacOs), None);
}

#[test]
fn sizes_are_written_like_floats_are() {
    let float = |bytes: u64| {
        if bytes < 1024 {
            format!("{bytes} B")
        } else if bytes < 1024 * 1024 {
            format!("{:.1} KB", bytes as f64 / 1024.0)
        } else {
            format!("{:.1} MB", bytes as f64 / (1024.0 * 1024.0))
        }
    };
    for bytes in [
        0, 1, 1023, 1024, 1075, 1076, 1280, 1792, 2000, 1048575, 1048576, 1310720, 1835008, 123456789,
        9007199254740993, 9007199254740995, 9007199254793421, u64::MAX, u64::MAX - 1023, u64::MAX - 1024,
    ] {
        assert_eq!(human_size(bytes), float(bytes), "{bytes}");
    }
    let mut seed: u64 = 0x9e3779b97f4a7c15;
    for _ in 0..2000 {
        seed ^= seed << 13;
        seed ^= seed >> 7;
        seed ^= seed << 17;
        let bytes = seed >> (seed % 50);
        assert_eq!(human_size(bytes), float(bytes), "{bytes}");
    }
}

#[test]
fn images_are_told_by_their_extension() {
    assert_eq!(image_format_for("/a/b.PNG"), Some(ImageFormat::Png));
    assert_eq!(image_format_for("x.jpeg"), Some(ImageFormat::Jpeg));
    assert_eq!(image_format_for("x.tif"), Some(ImageFormat::Tiff));
    assert_eq!(image_format_for("x.svg"), Some(ImageFormat::Svg));
    assert_eq!(image_format_for(".png"), None);
    assert!(is_image_path("a.webp") && !is_image_path("a.rs") && !is_image_path("png"));
}

fn gif() -> Vec<u8> {
    let mut bytes = b"GIF89a".to_vec();
    bytes.extend([7, 0, 5, 0, 0x80, 0, 0]);
    bytes.extend([0, 0, 0, 255, 255, 255]);
    bytes.extend([0x2c, 0, 0, 0, 0, 7, 0, 5, 0, 0, 2, 2, 0x44, 1, 0, 0x3b]);
    bytes
}

/// A grey TIFF header: little endian, one strip, its samples in planes.
fn tiff(width: u32, height: u32, samples: u32, rows_per_strip: u32) -> Vec<u8> {
    let entries: [(u16, u32); 9] = [
        (256, width),
        (257, height),
        (258, 8),
        (262, 1),
        (273, 8),
        (277, samples),
        (278, rows_per_strip),
        (279, 1),
        (284, 2),
    ];
    let mut bytes = b"II*\0\x08\0\0\0".to_vec();
    bytes.extend((entries.len() as u16).to_le_bytes());
    for (tag, value) in entries {
        bytes.extend(tag.to_le_bytes());
        bytes.extend(4u16.to_le_bytes());
        bytes.extend(1u32.to_le_bytes());
        bytes.extend(value.to_le_bytes());
    }
    bytes.extend(0u32.to_le_bytes());
    bytes
}

fn bmp(width: i32, height: i32) -> Vec<u8> {
    let mut bytes = b"BM".to_vec();
    bytes.extend([0u8; 8]);
    bytes.extend(54u32.to_le_bytes());
    bytes.extend(40u32.to_le_bytes());
    bytes.extend(width.to_le_bytes());
    bytes.extend(height.to_le_bytes());
    bytes.extend(1u16.to_le_bytes());
    bytes.extend(24u16.to_le_bytes());
    bytes.extend([0u8; 24]);
    bytes
}

#[test]
fn sizes_are_read_from_headers() {
    let sized = |bytes: Vec<u8>| ImageView::new("/p/a.png", &bytes).dimensions;
    assert_eq!(sized(bmp(3, 4)), Some((3, 4)));
    assert_eq!(sized(bmp(3, -4)), Some((3, 4)), "rows from the top");
    assert_eq!(sized(bmp(-3, 4)), None);
    assert_eq!(sized(tiff(6, 2, 1, 2)), Some((6, 2)));
    assert_eq!(sized(tiff(6, 0, 1, 2)), None);
    assert_eq!(sized(tiff(1, 0x8000_0001, 2, 1)), None, "more strips than can be counted");
    assert_eq!(sized(b"RIFF\0\0\0\0WEBPVP8 ".to_vec()), None);
    assert_eq!(sized(vec![0xff, 0xd8, 0xff]), None);
}

/// A big endian TIFF header with these fields, each a short or a long number.
fn big_endian_tiff(entries: &[(u16, u16, u32)]) -> Vec<u8> {
    let mut bytes = b"MM\0*\0\0\0\x08".to_vec();
    bytes.extend((entries.len() as u16).to_be_bytes());
    for (tag, kind, value) in entries {
        bytes.extend(tag.to_be_bytes());
        bytes.extend(kind.to_be_bytes());
        bytes.extend(1u32.to_be_bytes());
        bytes.extend((if *kind == 3 { value << 16 } else { *value }).to_be_bytes());
    }
    bytes.extend(0u32.to_be_bytes());
    bytes
}

#[test]
fn strips_and_tiles_are_counted_before_a_header_is_read() {
    assert!(tiff_counts_are_small(&tiff(6, 2, 1, 2)));
    assert!(tiff_counts_are_small(&tiff(1, u32::MAX, 1, 1)));
    assert!(tiff_counts_are_small(&tiff(1, 0x7fff_ffff, 2, 1)));
    assert!(!tiff_counts_are_small(&tiff(1, 0x8000_0000, 2, 1)));
    assert!(tiff_counts_are_small(&tiff(1, 0x8000_0000, 2, 2)), "two rows to a strip");
    assert!(tiff_counts_are_small(&tiff(1, 0x8000_0000, 2, 0)), "a strip without rows is refused later");
    let tiled = |width: u32, height: u32, samples: u32, planar: u32| {
        big_endian_tiff(&[
            (256, 4, width),
            (257, 4, height),
            (277, 3, samples),
            (284, 3, planar),
            (322, 3, 1),
            (323, 3, 1),
            (324, 4, 8),
        ])
    };
    assert!(tiff_counts_are_small(&tiled(65535, 65537, 1, 2)));
    assert!(!tiff_counts_are_small(&tiled(65536, 65536, 1, 2)));
    assert!(!tiff_counts_are_small(&tiled(65536, 65537, 1, 2)));
    assert!(!tiff_counts_are_small(&tiled(65535, 65537, 2, 2)));
    assert!(tiff_counts_are_small(&tiled(65535, 65537, 2, 1)), "one plane for all samples");
    let untiled = [(256, 4, 65536), (257, 4, 65536), (322, 3, 1), (323, 3, 1)];
    assert!(tiff_counts_are_small(&big_endian_tiff(&untiled)), "no tiles are there");
    let mut several = tiff(1, 0x8000_0000, 2, 1);
    several[8 + 2 + 12 + 4] = 2;
    assert!(tiff_counts_are_small(&several), "a height of two numbers is none");
    let mut passed_over = tiff(1, 0x8000_0000, 2, 1);
    passed_over[8 + 2 + 12 * 3] = 1;
    passed_over[8 + 2 + 12 * 3 + 1] = 1;
    passed_over[8 + 2 + 12 * 3 + 2] = 14;
    assert!(!tiff_counts_are_small(&passed_over), "a height of an unknown kind does not count");
    passed_over[8 + 2 + 12 * 3 + 2] = 4;
    assert!(tiff_counts_are_small(&passed_over), "the last height counts");
    let mut long = tiff(1, 0, 2, 1);
    let end = long.len() as u32;
    long[8 + 2 + 12 + 2] = 16;
    long[8 + 2 + 12 + 8..8 + 2 + 12 + 12].copy_from_slice(&end.to_le_bytes());
    assert!(tiff_counts_are_small(&long), "the number is not in the file");
    long.extend(0x8000_0000u64.to_le_bytes());
    assert!(!tiff_counts_are_small(&long));
    long[end as usize + 4] = 1;
    assert!(tiff_counts_are_small(&long), "no height is that great");
    assert!(tiff_counts_are_small(&b"II*\0".to_vec()) && tiff_counts_are_small(&b"II*\0\xff\0\0\0".to_vec()));
    assert!(is_tiff(&tiff(6, 2, 1, 2)) && is_tiff(&tiled(1, 1, 1, 1)) && !is_tiff(&gif()) && !is_tiff(&Vec::new()));
    assert!(header_counts_are_small(&gif()) && header_counts_are_small(&vec![0xff, 0xd8, 0xff]));
    assert!(!header_counts_are_small(&tiled(65536, 65536, 1, 1)));
    let view = ImageView::new("/p/a.tiff", &tiled(65536, 65537, 1, 1));
    assert_eq!(view.dimensions, None);
}

#[test]
fn sizes_of_eight_bytes_are_read_where_they_stand() {
    let mut bytes = tiff(0, 2, 1, 2);
    let end = bytes.len() as u32;
    bytes[8 + 2 + 2] = 16;
    bytes[8 + 2 + 8..8 + 2 + 12].copy_from_slice(&end.to_le_bytes());
    bytes.extend(6u64.to_le_bytes());
    assert_eq!(ImageView::new("/p/a.tiff", &bytes).dimensions, Some((6, 2)));
}

#[test]
fn the_first_scan_of_a_jpeg_is_found_behind_its_segments() {
    let segment = |marker: u8, length: u16| {
        let mut bytes = vec![0xff, marker];
        bytes.extend(length.to_be_bytes());
        bytes.extend(vec![0xff; length.saturating_sub(2) as usize]);
        bytes
    };
    let jpeg = |segments: &[(u8, u16)]| {
        let mut bytes = vec![0xff, 0xd8];
        for (marker, length) in segments {
            bytes.extend(segment(*marker, *length));
        }
        bytes
    };
    assert_eq!(scan_start(&jpeg(&[(0xe0, 16), (0xdb, 67), (0xda, 12)])), Some(2 + 18 + 69));
    assert_eq!(scan_start(&jpeg(&[(0xda, 12)])), Some(2));
    assert_eq!(scan_start(&jpeg(&[(0xe0, 16)])), None, "there is no scan");
    assert_eq!(scan_start(&jpeg(&[(0xe0, 6), (0xda, 12)])), None);
    assert_eq!(scan_start(&jpeg(&[(0xe1, 6), (0xda, 12)])), Some(2 + 8));
    assert_eq!(scan_start(&jpeg(&[(0xe1, 1), (0xda, 12)])), None);
    assert_eq!(scan_start(&jpeg(&[(0xff, 4), (0xda, 12)])), None);
    assert_eq!(scan_start(&vec![0xff, 0xd8, 0xff, 0xe0, 0xff, 0xff]), None);
    assert!(is_jpeg(&jpeg(&[(0xda, 12)])) && !is_jpeg(&gif()) && jpeg_counts_are_small(&jpeg(&[])));
}

#[test]
fn vector_images_show_no_size() {
    assert_eq!(shown_size(ImageFormat::Svg, Some((1, 2))), None);
    assert_eq!(shown_size(ImageFormat::Bmp, Some((1, 2))), Some((1, 2)));
    assert_eq!(shown_size(ImageFormat::Png, None), None);
}

#[test]
fn captions_tell_the_size_of_an_image() {
    let view = ImageView::new("/p/a.gif", &gif());
    assert_eq!(view.dimensions, Some((7, 5)));
    assert_eq!(view.caption(), format!("7 × 5 · {} B", gif().len()));
    let svg = ImageView::new("/p/a.svg", &gif());
    assert_eq!(svg.dimensions, None, "a vector image has no size");
    let mut broken = ImageView::new("/p/a.png", &b"not an image".to_vec());
    assert_eq!(broken.caption(), "12 B");
    broken.set_bytes("/p/a.png", &gif());
    assert_eq!(broken.dimensions, Some((7, 5)));
}

#[test]
fn settings_become_the_font_families() {
    let bundled = FontFamilies { ui: "Bundled UI".to_string(), code: "Bundled Code".to_string() };
    let default = font_families_from(&String::new(), &String::new(), &bundled);
    assert_eq!((default.ui.as_str(), default.code.as_str()), ("Bundled UI", "Bundled Code"));
    let fonts = font_families_from(&"Inter".to_string(), &"JetBrains Mono".to_string(), &bundled);
    assert_eq!(fonts.ui, "Inter");
    assert_eq!(fonts.code, "JetBrains Mono");
    assert!(refresh_font_settings(&Some(default), &Some(fonts)));
    assert!(!refresh_font_settings(&None, &None));
    let same = || Some(FontFamilies { ui: "a".to_string(), code: "b".to_string() });
    assert!(!refresh_font_settings(&same(), &same()));
    assert!(refresh_font_settings(&None, &same()));
}

#[test]
fn headers_of_hunks_are_stepped_through_in_a_circle() {
    let rows = strings(&["diff", "@@ a", "x", "@@ b", "y"]);
    assert_eq!(next_header(&rows, 0, true), Some(1));
    assert_eq!(next_header(&rows, 1, true), Some(3));
    assert_eq!(next_header(&rows, 4, true), Some(1));
    assert_eq!(next_header(&rows, 3, false), Some(1));
    assert_eq!(next_header(&rows, 1, false), Some(3));
    assert_eq!(next_header(&strings(&["a"]), 0, true), None);
}

#[test]
fn hunks_are_copied_and_taken_back() {
    let hunk = DiffHunk { old_start: 1, old_end: 3, new_start: 1, new_end: 2 };
    assert_eq!(hunk_replacement("a\r\nb\r\nc\r\nd\n", hunk), "b\nc\n");
    assert_eq!(hunk_text(&strings(&["a", "B", "d"]), hunk), "B\n");
    assert_eq!(hunk_text(&strings(&["a"]), hunk), "");
    let starts = vec![0usize, 2, 4];
    assert_eq!(hunk_range(&starts, 6, hunk), (2, 4));
    let last = DiffHunk { old_start: 0, old_end: 0, new_start: 2, new_end: 3 };
    assert_eq!(hunk_range(&starts, 6, last), (4, 6));
    let removed = DiffHunk { old_start: 0, old_end: 1, new_start: 9, new_end: 9 };
    assert_eq!(hunk_range(&starts, 6, removed), (4, 4));
}

#[test]
fn diff_tabs_are_named_after_their_file() {
    assert_eq!(diff_title("/repo/a.txt"), "/repo/a.txt ⇄ HEAD");
    assert_eq!(diff_title("a.txt"), "a.txt ⇄ HEAD");
    assert_eq!(relative_to("/repo/src/a.rs", "/repo"), "src/a.rs");
    assert_eq!(relative_to("/other/a.rs", "/repo"), "/other/a.rs");
}

#[test]
fn folders_keep_the_text_of_their_path() {
    let paths = [
        "", "/", "//", ".", "./", "..", "a", "a/", "./a", "/a", "/a/", "//a/b", "/a//b", "/a/./b", "/a/./b/.",
        "a/../b", "/r/./a/b.rs", "/r//a/b.rs", "./.", "/.", "/./a", "a/b/c",
    ];
    for path in paths {
        let std = Path::new(path).parent().map(|folder| folder.to_str().unwrap().to_string());
        assert_eq!(parent_folder(path), std, "{path:?}");
        for base in paths {
            let std = Path::new(path).strip_prefix(base).map(|rest| rest.to_str().unwrap().to_string());
            assert_eq!(relative_to(path, base), std.unwrap_or_else(|_| path.to_string()), "{path:?} {base:?}");
        }
        if let Some(name) = file_name(path) {
            let std = Path::new(path).with_file_name(format!("{name} ⇄ HEAD"));
            assert_eq!(diff_title(path), std.to_str().unwrap(), "{path:?}");
        }
    }
    assert_eq!(relative_to("/r/a/./b", "/r"), "a/./b");
    assert_eq!(relative_to("/r/a/", "/r"), "a");
    assert_eq!(diff_title("/r/./a/b.rs"), "/r/./a/b.rs ⇄ HEAD");
}

#[test]
fn components_come_apart_at_the_folder() {
    for (path, folder) in [("/r/a/./b", "/r"), ("/r//a/b/", "//r/a"), ("./a/b", "."), ("/a", "/"), ("a/b", "")] {
        let parts = components_of(path);
        let mut both = components_of(folder);
        both.extend(components_of(&relative_to(path, folder)));
        assert_eq!(both, parts, "{path:?} {folder:?}");
        let above = parent_folder(path).expect("a folder");
        assert_eq!(components_of(&above), parts[..parts.len() - 1].to_vec(), "{path:?}");
    }
}

#[test]
fn files_are_staged_in_the_nearest_repository() {
    for path in ["/r/a/b.rs", "a/b", "/", "", "./a", "/r//a/./b"] {
        let std: Vec<&str> = Path::new(path).ancestors().map(|folder| folder.to_str().unwrap()).collect();
        assert_eq!(path_ancestors(path), std, "{path:?}");
    }
    let target = |flags: &[bool]| staging_target("/r/a/b.rs", "/root", &flags.to_vec());
    let pair = |a: &str, b: &str| (a.to_string(), b.to_string());
    assert_eq!(target(&[false, true, true]), pair("/r/a", "b.rs"));
    assert_eq!(target(&[false, false, true, false]), pair("/r", "a/b.rs"));
    assert_eq!(target(&[false, false, false, true]), pair("/", "r/a/b.rs"));
    assert_eq!(target(&[true]), pair("/r/a/b.rs", ""));
    assert_eq!(target(&[false, false, false, false]), pair("/root", "/r/a/b.rs"));
    assert_eq!(target(&[]), pair("/root", "/r/a/b.rs"));
    assert_eq!(staging_target("/root/a/b", "/root", &vec![false; 4]), pair("/root", "a/b"));
}
