use media_gateway::delivery::StreamProtocol;
use media_gateway::gateway::Binding;
use media_gateway::hls::{
    child_binding, child_protocol, child_ttl_ms, is_manifest, manifest_lines, plan_manifest_line,
    ManifestLine,
};

#[test]
fn manifest_lines_follow_str_lines() {
    let text = "#EXTM3U\r\n\nseg-1.ts\n  \n#EXT-X-KEY:METHOD=AES-128,URI=\"key.bin\"\nlast";
    let expected: Vec<&str> = text.lines().collect();
    assert_eq!(manifest_lines(text), expected);
    assert_eq!(manifest_lines("a\n"), vec!["a"]);
    assert!(manifest_lines("").is_empty());
    assert_eq!(manifest_lines("\n\n"), vec!["", ""]);
}

#[test]
fn manifest_lines_are_classified() {
    assert_eq!(plan_manifest_line("   "), Ok(ManifestLine::Blank));
    assert_eq!(
        plan_manifest_line("#EXTINF:4.0,"),
        Ok(ManifestLine::Verbatim("#EXTINF:4.0,".into()))
    );
    assert_eq!(
        plan_manifest_line("  seg-1.ts \t"),
        Ok(ManifestLine::Uri("seg-1.ts".into()))
    );
    assert_eq!(
        plan_manifest_line("#EXT-X-KEY:METHOD=AES-128,URI=\"key.bin\",IV=0x1"),
        Ok(ManifestLine::Attribute {
            before: "#EXT-X-KEY:METHOD=AES-128,URI=\"".into(),
            target: "key.bin".into(),
            after: "\",IV=0x1".into(),
        })
    );
    assert_eq!(
        plan_manifest_line("#EXT-X-MAP:URI=\"init.mp4"),
        Err("INVALID_HLS_URI_ATTRIBUTE")
    );
}

#[test]
fn planned_lines_render_with_gateway_paths() {
    let mut out = String::new();
    let attribute = plan_manifest_line("#EXT-X-MAP:URI=\"init.mp4\"").unwrap();
    assert_eq!(attribute.target(), Some("init.mp4"));
    attribute.render_into(&mut out, "/stream/t1/s/i/1/hls-1");
    let uri = plan_manifest_line("seg.ts").unwrap();
    uri.render_into(&mut out, "/stream/t2/s/i/1/hls-2");
    ManifestLine::Blank.render_into(&mut out, "unused");
    assert_eq!(
        out,
        "#EXT-X-MAP:URI=\"/stream/t1/s/i/1/hls-1\"\n/stream/t2/s/i/1/hls-2\n\n"
    );
    assert_eq!(ManifestLine::Blank.target(), None);
}

#[test]
fn children_inherit_binding_and_remaining_lifetime() {
    assert_eq!(child_protocol("/a/Child.M3U8"), StreamProtocol::Hls);
    assert_eq!(child_protocol("/a/seg.ts"), StreamProtocol::HttpFile);
    assert!(is_manifest("/master.m3u8", None));
    assert!(is_manifest("/x", Some("application/vnd.apple.mpegurl")));
    assert!(is_manifest("/x", Some("audio/x-m3u")));
    assert!(!is_manifest("/x", Some("video/mp4")));
    let parent = Binding::new("session", "item", 3, "master");
    let child = child_binding(&parent, 17);
    assert_eq!(child, Binding::new("session", "item", 3, "hls-17"));
    assert_eq!(child_ttl_ms(10_000, 4_000), Some(6_000));
    assert_eq!(child_ttl_ms(10_000, 10_000), None);
}
