use backend::error::AppError;
use backend::services::jina::{
    extract_url_source, fetch_page_outcome, is_garbage_content, parse_retry_after_minutes as jina_wait,
    reader_url, JINA_RATE_LIMIT_DEFAULT_WAIT_MINUTES,
};
use backend::services::serp::{
    barcode_result, barcode_search_url, country_or_default, image_search_url, interpret_response,
    is_rate_limit_message as serp_limit_message, parse_retry_after_minutes as serp_wait, photo_link,
    product_name, product_name_from_title, recipe_search_url, recipe_sources_from, BrightResponse,
    ImageItem, OrganicItem,
};

fn organic(title: Option<&str>, link: Option<&str>) -> OrganicItem {
    OrganicItem { title: title.map(String::from), link: link.map(String::from) }
}

fn image(image: Option<&str>, original: Option<&str>, link: Option<&str>) -> ImageItem {
    ImageItem {
        image: image.map(String::from),
        original_image: original.map(String::from),
        link: link.map(String::from),
    }
}

#[test]
fn reader_address() {
    assert_eq!(reader_url("https://a.b/c"), "https://r.jina.ai/https://a.b/c");
}

#[test]
fn reader_retry_after_is_at_least_a_minute() {
    assert_eq!(jina_wait(Some("0")), 1);
    assert_eq!(jina_wait(Some("61")), 2);
    assert_eq!(jina_wait(Some(" 120 ")), 2);
    assert_eq!(jina_wait(Some("later")), JINA_RATE_LIMIT_DEFAULT_WAIT_MINUTES);
    assert_eq!(jina_wait(None), 5);
}

#[test]
fn garbage_pages_are_recognised() {
    assert!(is_garbage_content("Title: Just a moment...\nplease wait"));
    assert!(is_garbage_content("TITLE: ACCESS DENIED"));
    assert!(is_garbage_content("Please verify you are a human"));
    let long = format!("Please verify you are a human {}", "x".repeat(3000));
    assert!(!is_garbage_content(&long));
    assert!(!is_garbage_content("Title: Spaghetti Carbonara\n\nIngredients: eggs"));
}

#[test]
fn url_source_line_is_found_in_the_first_ten_lines() {
    let page = "Title: Soup\nURL Source: https://example.com/soup \n\nMarkdown Content:\n...";
    assert_eq!(extract_url_source(page), Some("https://example.com/soup".to_string()));
    let page = "url source:   http://x.y";
    assert_eq!(extract_url_source(page), Some("http://x.y".to_string()));
    let page = "URL Source: ftp://x.y";
    assert_eq!(extract_url_source(page), None);
    let late = format!("{}URL Source: https://late.example", "line\n".repeat(10));
    assert_eq!(extract_url_source(&late), None);
    let crlf = "a\r\nURL Source: https://c.example\r\n";
    assert_eq!(extract_url_source(crlf), Some("https://c.example".to_string()));
}

#[test]
fn reader_answers_become_outcomes() {
    let ok = fetch_page_outcome(
        "https://orig",
        200,
        "200 OK",
        None,
        Ok("Title: Soup\nURL Source: https://real\n\nBody".to_string()),
    );
    let (page, url) = ok.unwrap();
    assert!(page.starts_with("Title: Soup"));
    assert_eq!(url, "https://real");

    let (_, url) = fetch_page_outcome("https://orig", 200, "200 OK", None, Ok("Body".into())).unwrap();
    assert_eq!(url, "https://orig");

    match fetch_page_outcome("u", 429, "429 Too Many Requests", Some("90"), Ok(String::new())) {
        Err(AppError::RateLimitError { message, retry_after_minutes }) => {
            assert_eq!(message, "Jina");
            assert_eq!(retry_after_minutes, 2);
        }
        _ => panic!("expected a rate limit"),
    }
    let e = fetch_page_outcome("u", 403, "403 Forbidden", None, Ok("no key".into())).unwrap_err();
    assert!(matches!(e, AppError::InternalServerError(ref m) if m == "Jina Reader authentication/quota error: no key"));
    let e = fetch_page_outcome("u", 404, "404 Not Found", None, Err("io".into())).unwrap_err();
    assert!(matches!(e, AppError::InternalServerError(ref m) if m == "Invalid target URL or page not found: "));
    let e = fetch_page_outcome("u", 504, "504 Gateway Timeout", None, Ok(String::new())).unwrap_err();
    assert!(matches!(e, AppError::InternalServerError(ref m) if m == "Target website took too long to respond"));
    let e = fetch_page_outcome("u", 500, "500 Internal Server Error", None, Ok("oops".into())).unwrap_err();
    assert!(matches!(e, AppError::InternalServerError(ref m) if m == "Jina Reader error 500 Internal Server Error: oops"));
    let e = fetch_page_outcome("u", 200, "200 OK", None, Err("reset".into())).unwrap_err();
    assert!(matches!(e, AppError::InternalServerError(ref m) if m == "Failed to read response: reset"));
    let e = fetch_page_outcome("u", 200, "200 OK", None, Ok(" \n\t".into())).unwrap_err();
    assert!(matches!(e, AppError::InternalServerError(ref m) if m == "Empty content"));
    let e = fetch_page_outcome("u", 200, "200 OK", None, Ok("Title: Robot Check".into())).unwrap_err();
    assert!(matches!(e, AppError::InternalServerError(ref m) if m == "Target website blocked the scraper (Captcha / Access Denied)"));
}

#[test]
fn search_addresses_are_percent_encoded() {
    assert_eq!(
        recipe_search_url("spaghetti carbonara & wine"),
        "https://www.google.com/search?q=spaghetti%20carbonara%20%26%20wine&num=5&brd_json=1"
    );
    assert_eq!(
        barcode_search_url("4006381333931", "UA"),
        "https://www.google.com/search?q=4006381333931%20food&gl=UA&num=3&brd_json=1"
    );
    assert_eq!(
        image_search_url("Pâte", "SE"),
        "https://www.google.com/search?q=P%C3%A2te%20food&gl=SE&num=3&brd_json=1&tbm=isch"
    );
    assert_eq!(country_or_default(None), "SE");
    assert_eq!(country_or_default(Some("PL")), "PL");
}

#[test]
fn search_limits_and_waits() {
    assert!(serp_limit_message("Rate exceeded"));
    assert!(serp_limit_message("LIMIT reached"));
    assert!(serp_limit_message("quota"));
    assert!(!serp_limit_message("zone not found"));
    assert_eq!(serp_wait(Some("60"), 5), 1);
    assert_eq!(serp_wait(Some("61"), 5), 2);
    assert_eq!(serp_wait(Some(" 60"), 5), 5);
    assert_eq!(serp_wait(None, 5), 5);
}

#[test]
fn search_answers_become_outcomes() {
    let body = || BrightResponse { organic: vec![], images: vec![], error: None };
    assert!(interpret_response(200, "200 OK", None, Ok(body())).is_ok());
    match interpret_response(429, "429 Too Many Requests", Some("120"), Ok(body())) {
        Err(AppError::RateLimitError { message, retry_after_minutes }) => {
            assert_eq!(message, "BrightData");
            assert_eq!(retry_after_minutes, 2);
        }
        _ => panic!("expected a rate limit"),
    }
    let limited = BrightResponse { error: Some("Daily Quota exceeded".into()), ..body() };
    assert!(matches!(
        interpret_response(200, "200 OK", None, Ok(limited)),
        Err(AppError::RateLimitError { retry_after_minutes: 5, .. })
    ));
    let failed = BrightResponse { error: Some("zone missing".into()), ..body() };
    let e = interpret_response(200, "200 OK", None, Ok(failed)).unwrap_err();
    assert!(matches!(e, AppError::InternalServerError(ref m) if m == "BrightData error: zone missing"));
    let e = interpret_response(502, "502 Bad Gateway", None, Ok(body())).unwrap_err();
    assert!(matches!(e, AppError::InternalServerError(ref m) if m == "BrightData returned status 502 Bad Gateway"));
    let e = interpret_response(200, "200 OK", None, Err("bad json".into())).unwrap_err();
    assert!(matches!(e, AppError::InternalServerError(ref m) if m == "bad json"));
}

#[test]
fn recipe_sources_need_title_and_link() {
    let items = vec![
        organic(Some("A"), Some("https://a")),
        organic(None, Some("https://b")),
        organic(Some("C"), None),
        organic(Some("D"), Some("https://d")),
    ];
    let r = recipe_sources_from(&items);
    let got: Vec<(String, String)> = r.sources.iter().map(|s| (s.title.clone(), s.link.clone())).collect();
    assert_eq!(got, vec![("A".into(), "https://a".into()), ("D".into(), "https://d".into())]);
}

#[test]
fn product_names_from_titles() {
    assert_eq!(
        product_name_from_title("Barilla Spaghetti n.5 - 500 g - Open Food Facts"),
        "Barilla Spaghetti n.5 - 500 g"
    );
    assert_eq!(product_name_from_title("Heinz Ketchup"), "Heinz Ketchup");
    assert_eq!(product_name_from_title("123 - Open Food Facts"), "");
    let items = vec![organic(None, Some("x")), organic(Some("Milk – Open Food Facts"), None)];
    assert_eq!(product_name(&items), Some("Milk".to_string()));
    assert_eq!(product_name(&vec![organic(None, None)]), None);
}

#[test]
fn photo_is_the_first_image_with_an_address() {
    assert_eq!(image(None, Some("o"), Some("l")).best_url(), Some("o"));
    assert_eq!(image(Some("i"), Some("o"), None).best_url(), Some("i"));
    assert_eq!(image(None, None, None).best_url(), None);
    let images = vec![image(None, None, None), image(None, None, Some("https://l"))];
    assert_eq!(photo_link(&images), Some("https://l".to_string()));
    let r = barcode_result(Some("Milk".into()), Some(&images));
    assert_eq!(r.name.as_deref(), Some("Milk"));
    assert_eq!(r.photo_link.as_deref(), Some("https://l"));
    let r = barcode_result(None, None);
    assert!(r.name.is_none() && r.photo_link.is_none());
}
