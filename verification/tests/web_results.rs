use ollama_chat::search::{clean_fragment_vec, format_search_results, lite_snippets, WikiHit};
use ollama_chat::web::{
    clip_page_text, failure_message, first_place, forecast_address, geocode_address,
    html_patterns_ok, lite_address, page_text, place_not_found_message, route_query, strip_html,
    weather_code_desc, weather_report, wikipedia_address, CurrentWeather, DailyWeather, Forecast,
    LookupStep, Place, SearchRoute,
};

#[test]
fn weather_codes() {
    assert_eq!(weather_code_desc(0), "Klarer Himmel");
    assert_eq!(weather_code_desc(48), "Nebel");
    assert_eq!(weather_code_desc(63), "Mäßiger Regen");
    assert_eq!(weather_code_desc(99), "Gewitter mit starkem Hagel");
    assert_eq!(weather_code_desc(4), "Unbekannt");
    assert_eq!(weather_code_desc(45), weather_code_desc(48));
    assert_eq!(weather_code_desc(56), weather_code_desc(57));
    assert_eq!(weather_code_desc(66), "Gefrierender Regen");
    assert_ne!(weather_code_desc(53), weather_code_desc(55));
    assert_eq!(weather_code_desc(-1), "Unbekannt");
}

#[test]
fn routes() {
    assert!(matches!(route_query("WEBFETCH:https://x.de"), SearchRoute::FetchPage(u) if u == "https://x.de"));
    assert!(matches!(route_query("Wetter  Berlin "), SearchRoute::Weather(p) if p == "Berlin"));
    assert!(matches!(route_query("WEATHER London"), SearchRoute::Weather(p) if p == "London"));
    assert!(matches!(route_query("wetter "), SearchRoute::Web { .. }));
    assert!(matches!(route_query("rust lang"),
        SearchRoute::Web { lite, wikipedia } if lite == "https://lite.duckduckgo.com/lite/?q=rust%20lang"
            && wikipedia == "https://de.wikipedia.org/w/api.php?action=query&list=search&srsearch=rust%20lang&srlimit=3&format=json"));
}

#[test]
fn addresses_are_percent_encoded() {
    assert_eq!(
        lite_address("ä&b~"),
        "https://lite.duckduckgo.com/lite/?q=%C3%A4%26b~"
    );
    assert_eq!(
        wikipedia_address("a b"),
        "https://de.wikipedia.org/w/api.php?action=query&list=search&srsearch=a%20b&srlimit=3&format=json"
    );
    assert_eq!(
        geocode_address("São Paulo"),
        "https://geocoding-api.open-meteo.com/v1/search?name=S%C3%A3o%20Paulo&count=1&language=de&format=json"
    );
}

fn hit(title: Option<&str>, snippet: Option<&str>) -> WikiHit {
    WikiHit { title: title.map(String::from), snippet: snippet.map(String::from) }
}

const LITE_PAGE: &str = "<table><tr><td><a class='result-link' href='https://www.rust-lang.org'>Rust</a></td></tr>\n\
<tr><td class='result-snippet'>A <b>language</b> empowering\n   everyone &amp; more.</td></tr>\n\
<tr><td class='result-snippet'>   </td></tr>\n\
<tr><td class='result-snippet'>Second &quot;hit&quot;</td></tr></table>";

#[test]
fn lite_snippets_are_read() {
    let snips = lite_snippets(&LITE_PAGE.chars().collect());
    let texts: Vec<String> = snips.iter().map(|v| v.iter().collect()).collect();
    assert_eq!(texts, vec![
        "A <b>language</b> empowering\n   everyone &amp; more.".to_string(),
        "   ".to_string(),
        "Second &quot;hit&quot;".to_string(),
    ]);
    let clean: String = clean_fragment_vec(&"a<span class=\"x\">b</span>c &lt;d&gt;".chars().collect()).into_iter().collect();
    assert_eq!(clean, "a b c <d>");
}

#[test]
fn search_results_text() {
    let nothing = format_search_results("rust", &Ok("<html></html>".to_string()), &Ok(None));
    assert_eq!(nothing, "Keine Suchergebnisse für 'rust' gefunden.");
    let wiki = vec![
        hit(Some("Rust (Programmiersprache)"), Some("eine <span class=\"searchmatch\">Sprache</span>")),
        hit(None, Some("ohne Titel")),
        hit(Some("Rost"), None),
        hit(Some("Rust Belt"), Some("x")),
        hit(Some("Vierter"), Some("y")),
    ];
    assert_eq!(
        format_search_results("rust", &Ok(LITE_PAGE.to_string()), &Ok(Some(wiki))),
        "- A language empowering everyone & more.\n- Second \"hit\"\nWikipedia: Rust (Programmiersprache): eine Sprache\nWikipedia: Rost\nWikipedia: Rust Belt: x"
    );
}

#[test]
fn search_failures_are_reported() {
    let lite_err: Result<String, String> = Err("Fehler bei der Suchanfrage: timeout".to_string());
    let wiki_err: Result<Option<Vec<WikiHit>>, String> = Err("Fehler beim Lesen der Suchergebnisse: eof".to_string());
    assert_eq!(
        format_search_results("q", &lite_err, &wiki_err),
        "Fehler bei der Suchanfrage: timeout\nFehler beim Lesen der Suchergebnisse: eof"
    );
    assert_eq!(
        format_search_results("q", &lite_err, &Ok(Some(vec![hit(Some("Q"), None)]))),
        "Wikipedia: Q"
    );
    assert_eq!(format_search_results("q", &Ok(String::new()), &wiki_err), "Fehler beim Lesen der Suchergebnisse: eof");
}

#[test]
fn html_to_text() {
    assert!(html_patterns_ok());
    let html = "<html><head><style>p{color:red}</style><SCRIPT>var x = 1;</SCRIPT></head>\n<body><p>Hallo &amp; Tsch&uuml;ss</p>\n\n<b>Ende</b></body></html>";
    assert_eq!(strip_html(html), "Hallo & Tschüss Ende");
    assert_eq!(strip_html("  &lt;tag&gt; &quot;x&quot;&nbsp;&szlig; "), "<tag> \"x\" ß");
}

#[test]
fn page_text_is_clipped() {
    let long = "a".repeat(9000);
    let clipped = clip_page_text(&long).unwrap();
    assert_eq!(clipped, format!("{}\n\n[Text gekürzt auf 8000 Zeichen]", "a".repeat(8000)));
    assert_eq!(clip_page_text("kurz"), Some("kurz".to_string()));
    let exact = "b".repeat(8000);
    assert_eq!(clip_page_text(&exact), Some(exact.clone()));
    let mid_char = format!("{}ä{}", "a".repeat(7999), "c".repeat(10));
    assert_eq!(clip_page_text(&mid_char), None);
    assert_eq!(page_text(&format!("<p>{}</p>", mid_char)), None);
    assert_eq!(page_text("<p>Hi</p>"), Some("Hi".to_string()));
}

#[test]
fn failure_messages() {
    assert_eq!(failure_message(LookupStep::SearchRequest, "timeout"), "Fehler bei der Suchanfrage: timeout");
    assert_eq!(failure_message(LookupStep::SearchBody, "x"), "Fehler beim Lesen der Suchergebnisse: x");
    assert_eq!(failure_message(LookupStep::PageBody, "x"), "Fehler beim Abrufen der Seite: x");
    assert_eq!(failure_message(LookupStep::GeocodeRequest, "x"), "Fehler bei der Geokodierung: x");
    assert_eq!(failure_message(LookupStep::ForecastBody, "x"), "Fehler bei der Wetterabfrage: x");
}

fn berlin() -> Place {
    Place {
        latitude: Some("52.52".into()),
        longitude: Some("13.41".into()),
        name: Some("Berlin".into()),
        country: Some("Deutschland".into()),
        region: Some("Land Berlin".into()),
    }
}

#[test]
fn places() {
    assert!(first_place(&None).is_none());
    assert!(first_place(&Some(vec![])).is_none());
    let v = Some(vec![berlin()]);
    assert_eq!(first_place(&v).unwrap().name.as_deref(), Some("Berlin"));
    assert_eq!(place_not_found_message("Atlantis"), "Konnte 'Atlantis' nicht finden.");
}

#[test]
fn forecast_url() {
    assert_eq!(
        forecast_address(&berlin()),
        "https://api.open-meteo.com/v1/forecast?latitude=52.52&longitude=13.41&current_weather=true&daily=temperature_2m_max,temperature_2m_min,precipitation_sum,weathercode&timezone=Europe/Berlin&forecast_days=3"
    );
    let nowhere = Place { latitude: None, longitude: None, name: None, country: None, region: None };
    assert!(forecast_address(&nowhere).starts_with("https://api.open-meteo.com/v1/forecast?latitude=0&longitude=0&"));
}

#[test]
fn weather_reports() {
    assert_eq!(weather_report(&berlin(), "berlin", &None), "Fehler beim Parsen der Wetterdaten.");
    let f = Forecast {
        current: Some(CurrentWeather { temperature: Some("21.5".into()), windspeed: None, weathercode: Some(3) }),
        daily: Some(DailyWeather {
            time: Some(vec![Some("2024-05-01".into()), Some("2024-05-02".into()), None, Some("2024-05-04".into())]),
            temperature_max: Some(vec![Some("20".into())]),
            temperature_min: Some(vec![Some("10".into()), Some("11".into())]),
            precipitation: None,
            weathercode: Some(vec![Some(61), None]),
        }),
    };
    assert_eq!(
        weather_report(&berlin(), "berlin", &Some(f)),
        "Wetter für Berlin, Land Berlin (Deutschland)\n\
         Aktuell: 21.5°C, Bedeckt, Wind: 0 km/h\n\
         2024-05-01: 10°C - 20°C, Leichter Regen, Niederschlag: 0 mm\n\
         2024-05-02: 11°C - 0°C, Klarer Himmel, Niederschlag: 0 mm\n\
         : 0°C - 0°C, Klarer Himmel, Niederschlag: 0 mm"
    );
    let bare = Place { latitude: None, longitude: None, name: None, country: None, region: None };
    let f2 = Forecast { current: None, daily: None };
    assert_eq!(weather_report(&bare, "Ort", &Some(f2)), "Wetter für Ort,  ()");
}
