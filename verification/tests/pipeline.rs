use base64::prelude::BASE64_STANDARD;
use base64::Engine;
use digi4school::errors::ScrapeError;
use digi4school::registry::{ScraperKind, ScraperRegistry, ScraperRule};
use digi4school::response::{BufferedResponse, Header};
use digi4school::scraper::{discover_assets, fetch_page_pdf, get_page_svg, Asset};
use digi4school::volume::Volume;

fn resp(url: &str, headers: Vec<(&str, &str)>, body: &[u8]) -> BufferedResponse {
    BufferedResponse {
        final_url: url.as_bytes().to_vec(),
        headers: headers
            .into_iter()
            .map(|(n, v)| Header { name: n.as_bytes().to_vec(), value: v.as_bytes().to_vec() })
            .collect(),
        body: body.to_vec(),
    }
}

fn png_asset(reference: &str, body: &[u8]) -> Asset {
    Asset {
        reference: reference.as_bytes().to_vec(),
        response: resp(
            "https://a.digi4school.at/ebook/1/asset",
            vec![("Content-Type", "image/png")],
            body,
        ),
    }
}

#[test]
fn exactly_once_resolution() {
    let mut vol = Volume::new(
        b"https://digi4school.at/ebook/1".to_vec(),
        b"Book".to_vec(),
        b"https://digi4school.at/thumb.png".to_vec(),
    );
    assert!(vol.needs_fetch());
    let winner = resp("https://a.digi4school.at/ebook/1/", vec![], b"winner body");
    let loser = resp("https://b.example.com/other", vec![], b"loser body");
    assert!(vol.offer_session(winner));
    // A racing second resolution loses and must not displace the winner.
    assert!(!vol.offer_session(loser));
    let got = vol.session_response().unwrap();
    assert_eq!(got.final_url, b"https://a.digi4school.at/ebook/1/".to_vec());
    assert_eq!(got.body, b"winner body".to_vec());
}

#[test]
fn idempotent_re_access() {
    let mut vol = Volume::new(b"https://digi4school.at/e/2".to_vec(), vec![], vec![]);
    assert!(vol.offer_session(resp("https://a.digi4school.at/e/2/", vec![], b"abc")));
    // Once resolved, no further fetch is ever needed.
    assert!(!vol.needs_fetch());
    let first: Vec<u8> = vol.session_response().unwrap().body.clone();
    let second: Vec<u8> = vol.session_response().unwrap().body.clone();
    assert_eq!(first, second);
    assert!(!vol.needs_fetch());
}

#[test]
fn asset_deduplication() {
    let piece = "<image xlink:href=\"3/img1.png\"/>";
    let raw_str = format!("<svg>{p}{p}{p}{p}</svg>", p = piece);
    let raw: Vec<u8> = raw_str.as_bytes().to_vec();
    let refs = discover_assets(&raw, 3);
    // The reference occurs four times but is to be fetched exactly once.
    assert_eq!(refs.len(), 1);
    assert_eq!(refs[0], b"3/img1.png".to_vec());

    let assets = vec![png_asset("3/img1.png", &[1u8, 2u8, 3u8])];
    let svg = get_page_svg(&raw, &assets).unwrap();
    let uri = "data:image/png;base64,AQID";
    let expected = raw_str.replace("3/img1.png", uri);
    assert_eq!(svg, expected.as_bytes().to_vec());
    // All four occurrences carry the identical data URI.
    assert_eq!(String::from_utf8(svg).unwrap().matches(uri).count(), 4);
}

#[test]
fn page_scoped_discovery() {
    let raw: Vec<u8> =
        b"<svg><image xlink:href=\"4/img.png\"/><image xlink:href=\"3/own.png\"/></svg>".to_vec();
    // A page-4 reference inside a page-3 fetch is not an asset of page 3.
    let refs3 = discover_assets(&raw, 3);
    assert_eq!(refs3.len(), 1);
    assert_eq!(refs3[0], b"3/own.png".to_vec());
    let refs4 = discover_assets(&raw, 4);
    assert_eq!(refs4.len(), 1);
    assert_eq!(refs4[0], b"4/img.png".to_vec());
}

#[test]
fn multi_digit_page_prefix() {
    let raw: Vec<u8> = b"<image xlink:href=\"12/pic.png\"/><image xlink:href=\"1/pic.png\"/>".to_vec();
    let refs = discover_assets(&raw, 12);
    assert_eq!(refs.len(), 1);
    assert_eq!(refs[0], b"12/pic.png".to_vec());
    let refs1 = discover_assets(&raw, 1);
    assert_eq!(refs1.len(), 1);
    assert_eq!(refs1[0], b"1/pic.png".to_vec());
}

#[test]
fn content_type_fidelity_round_trip() {
    let body: Vec<u8> = (0u8..=255u8).collect();
    let raw: Vec<u8> = b"<svg><image xlink:href=\"7/blob.bin\"/></svg>".to_vec();
    let assets = vec![png_asset("7/blob.bin", &body)];
    let svg = get_page_svg(&raw, &assets).unwrap();
    let text = String::from_utf8(svg).unwrap();
    let start = text.find("data:").unwrap();
    let end = text[start..].find("\"/>").unwrap() + start;
    let uri = &text[start..end];
    // The URI declares the asset's content type ...
    assert!(uri.starts_with("data:image/png;base64,"));
    // ... and its payload decodes back to exactly the asset's bytes.
    let payload = &uri["data:image/png;base64,".len()..];
    assert_eq!(BASE64_STANDARD.decode(payload).unwrap(), body);
}

#[test]
fn known_base64_value() {
    let raw: Vec<u8> = b"<t xlink:href=\"5/h.txt\"/>".to_vec();
    let assets = vec![Asset {
        reference: b"5/h.txt".to_vec(),
        response: resp("https://a.digi4school.at/x", vec![("Content-Type", "text/plain")], b"hello"),
    }];
    let svg = get_page_svg(&raw, &assets).unwrap();
    assert_eq!(svg, b"<t xlink:href=\"data:text/plain;base64,aGVsbG8=\"/>".to_vec());
}

#[test]
fn empty_asset_body() {
    let raw: Vec<u8> = b"<t xlink:href=\"5/e\"/>".to_vec();
    let assets = vec![png_asset("5/e", &[])];
    let svg = get_page_svg(&raw, &assets).unwrap();
    assert_eq!(svg, b"<t xlink:href=\"data:image/png;base64,\"/>".to_vec());
}

#[test]
fn missing_header_failure() {
    let raw: Vec<u8> = b"<svg><image xlink:href=\"3/a.png\"/></svg>".to_vec();
    let assets = vec![Asset {
        reference: b"3/a.png".to_vec(),
        response: resp("https://a.digi4school.at/3/a.png", vec![], b"bytes"),
    }];
    assert_eq!(get_page_svg(&raw, &assets), Err(ScrapeError::MissingContentType));
    // The whole page assembly fails; no partial or placeholder inlining.
    assert_eq!(fetch_page_pdf(&raw, &assets), Err(ScrapeError::MissingContentType));
}

#[test]
fn malformed_header_failure() {
    let raw: Vec<u8> = b"<svg><image xlink:href=\"3/a.png\"/></svg>".to_vec();
    let mut response = resp("https://a.digi4school.at/3/a.png", vec![], b"bytes");
    response.headers.push(Header { name: b"Content-Type".to_vec(), value: vec![0xffu8] });
    let assets = vec![Asset { reference: b"3/a.png".to_vec(), response }];
    assert_eq!(get_page_svg(&raw, &assets), Err(ScrapeError::MalformedContentType));
}

#[test]
fn header_lookup_is_case_insensitive() {
    let response = resp("https://a.digi4school.at/x", vec![("content-TYPE", "image/gif")], b"");
    assert_eq!(response.content_type(), Ok(b"image/gif".to_vec()));
}

#[test]
fn dispatch_correctness() {
    let registry = ScraperRegistry::with_default_rules();
    let vol = Volume::from_single_volume_book(
        b"Book".to_vec(),
        vec![],
        resp("https://a.digi4school.at/ebook/42/", vec![], b""),
    );
    assert_eq!(vol.get_scraper(&registry), Ok(ScraperKind::Vector));

    let other = Volume::from_single_volume_book(
        b"Other".to_vec(),
        vec![],
        resp("https://example.com/doc/1", vec![], b""),
    );
    assert_eq!(other.get_scraper(&registry), Err(ScrapeError::UnsupportedSource));
}

#[test]
fn dispatch_matches_host_not_path() {
    let registry = ScraperRegistry::with_default_rules();
    let vol = Volume::from_single_volume_book(
        b"Book".to_vec(),
        vec![],
        resp("https://evil.example.com/digi4school.at", vec![], b""),
    );
    assert_eq!(vol.get_scraper(&registry), Err(ScrapeError::UnsupportedSource));
}

#[test]
fn dispatch_checks_rules_in_order() {
    let registry = ScraperRegistry {
        rules: vec![
            ScraperRule { host_suffix: b"example.com".to_vec(), kind: ScraperKind::Vector },
            ScraperRule { host_suffix: b"digi4school.at".to_vec(), kind: ScraperKind::Vector },
        ],
    };
    let vol = Volume::from_single_volume_book(
        b"Book".to_vec(),
        vec![],
        resp("https://a.digi4school.at/e/1", vec![], b""),
    );
    assert_eq!(vol.get_scraper(&registry), Ok(ScraperKind::Vector));
    let none = Volume::from_single_volume_book(
        b"B".to_vec(),
        vec![],
        resp("ftp://nohost.net/e", vec![], b""),
    );
    assert_eq!(none.get_scraper(&registry), Err(ScrapeError::UnsupportedSource));
}

#[test]
fn discovery_stops_at_newline() {
    // A reference cannot run across a line break.
    let raw: Vec<u8> = b"<image xlink:href=\"3/a\n.png\"/>".to_vec();
    assert_eq!(discover_assets(&raw, 3).len(), 0);
}

#[test]
fn discovery_needs_closing_quote_slash_gt() {
    // `">` alone does not close a reference; only `"/>` does.
    let raw: Vec<u8> = b"<image xlink:href=\"3/a.png\"></image>".to_vec();
    assert_eq!(discover_assets(&raw, 3).len(), 0);
}

#[test]
fn discovery_capture_is_lazy() {
    // The capture ends at the nearest `"/>`, not the last one.
    let raw: Vec<u8> = b"<image xlink:href=\"3/a.png\"/><image xlink:href=\"3/b.png\"/>".to_vec();
    let refs = discover_assets(&raw, 3);
    assert_eq!(refs.len(), 2);
    assert_eq!(refs[0], b"3/a.png".to_vec());
    assert_eq!(refs[1], b"3/b.png".to_vec());
}

#[test]
fn discovery_requires_reference_beyond_prefix() {
    // A capture holds at least one byte beyond the page prefix, so the
    // bare reference `3/` cannot close immediately: the lazy capture runs
    // on to the nearest `"/>` further right.
    let raw: Vec<u8> = b"<image xlink:href=\"3/\"/><image xlink:href=\"3/x\"/>".to_vec();
    let refs = discover_assets(&raw, 3);
    assert_eq!(refs.len(), 1);
    assert_eq!(refs[0], b"3/\"/><image xlink:href=\"3/x".to_vec());
}

const PNG_1X1: &str =
    "iVBORw0KGgoAAAANSUhEUgAAAAEAAAABCAYAAAAfFcSJAAAADUlEQVR42mNkYPhfDwAChwGA60e6kgAAAABJRU5ErkJggg==";

#[test]
fn end_to_end_scenario() {
    // Source URL, then a (mock) login redirect the application followed:
    let mut vol = Volume::new(
        b"https://digi4school.at/ebook/77".to_vec(),
        b"Testbook".to_vec(),
        b"https://digi4school.at/t.png".to_vec(),
    );
    assert!(vol.needs_fetch());
    let session = resp("https://a.digi4school.at/ebook/77/", vec![], b"toc");
    assert!(vol.offer_session(session));

    // The resolved destination selects the vector-document scraper.
    let registry = ScraperRegistry::with_default_rules();
    assert_eq!(vol.get_scraper(&registry), Ok(ScraperKind::Vector));

    // A 5-page document: the (mock) catalog reports its page count.
    let page_count: u16 = 5;
    assert_eq!(page_count, 5);

    // Page 0: two distinct assets, the first referenced twice.
    let png = BASE64_STANDARD.decode(PNG_1X1).unwrap();
    let raw_str = "<svg xmlns=\"http://www.w3.org/2000/svg\" \
xmlns:xlink=\"http://www.w3.org/1999/xlink\" width=\"4\" height=\"4\">\
<image width=\"1\" height=\"1\" xlink:href=\"0/a.png\"/>\
<image x=\"1\" width=\"1\" height=\"1\" xlink:href=\"0/a.png\"/>\
<image x=\"2\" width=\"1\" height=\"1\" xlink:href=\"0/b.png\"/>\
</svg>";
    let raw: Vec<u8> = raw_str.as_bytes().to_vec();

    // Exactly one fetch per distinct embedded asset.
    let refs = discover_assets(&raw, 0);
    assert_eq!(refs.len(), 2);
    assert_eq!(refs[0], b"0/a.png".to_vec());
    assert_eq!(refs[1], b"0/b.png".to_vec());

    let assets: Vec<Asset> =
        refs.iter().map(|r| png_asset(std::str::from_utf8(r).unwrap(), &png)).collect();

    // The assembled document inlines every occurrence.
    let svg = get_page_svg(&raw, &assets).unwrap();
    let uri = format!("data:image/png;base64,{}", PNG_1X1);
    let expected = raw_str.replace("0/a.png", &uri).replace("0/b.png", &uri);
    assert_eq!(svg, expected.as_bytes().to_vec());

    // The rendering collaborator accepts the self-contained document.
    let pdf = fetch_page_pdf(&raw, &assets).unwrap();
    assert!(pdf.starts_with(b"%PDF"));
}
