use xkcd_get::{Comic, ComicDate, ComicError, ComicRequest};

fn request(year: &str, month: &str, day: &str) -> ComicRequest {
    ComicRequest {
        month: String::from(month),
        num: 10,
        link: String::from(""),
        year: String::from(year),
        news: String::from(""),
        transcript: String::from(
            "Pi = 3.141592653589793helpimtrappedinauniversefactory7108914...",
        ),
        alt: String::from("My most famous drawing, and one of the first I did for the site"),
        img: String::from("https://imgs.xkcd.com/comics/pi.jpg"),
        title: String::from("Pi Equals"),
        day: String::from(day),
    }
}

fn error_of(year: &str, month: &str, day: &str) -> ComicError {
    match request(year, month, day).comic() {
        Ok(c) => panic!("expected an error, got {:?}", c),
        Err(e) => e,
    }
}

#[test]
fn comic_ten_converts_field_for_field() {
    let data = request("2006", "1", "1").comic().unwrap();
    assert_eq!(data.title, String::from("Pi Equals"));
    assert_eq!(data.link, String::from(""));
    assert_eq!(data.num, 10);
    assert_eq!(data.img, String::from("https://imgs.xkcd.com/comics/pi.jpg"));
    assert_eq!(
        data.alt,
        String::from("My most famous drawing, and one of the first I did for the site")
    );
    assert_eq!(data.news, String::from(""));
    assert_eq!(
        data.transcript,
        String::from("Pi = 3.141592653589793helpimtrappedinauniversefactory7108914...")
    );
    assert_eq!(data.date, ComicDate { year: 2006, month: 1, day: 1 });
    assert_eq!(data.date, ComicDate::new(2006, 1, 1).unwrap());
}

#[test]
fn zero_padded_date_strings_are_read() {
    let data = request("2006", "01", "01").comic().unwrap();
    assert_eq!(data.date, ComicDate { year: 2006, month: 1, day: 1 });
}

#[test]
fn number_is_kept() {
    let mut req = request("2024", "3", "15");
    req.num = 2907;
    let data = req.comic().unwrap();
    assert_eq!(data.num, 2907);
    assert_eq!(data.date, ComicDate { year: 2024, month: 3, day: 15 });
}

#[test]
fn converting_twice_gives_equal_records() {
    let a = request("2006", "1", "1").comic().unwrap();
    let b = request("2006", "1", "1").comic().unwrap();
    assert_eq!(a.title, b.title);
    assert_eq!(a.link, b.link);
    assert_eq!(a.num, b.num);
    assert_eq!(a.img, b.img);
    assert_eq!(a.alt, b.alt);
    assert_eq!(a.news, b.news);
    assert_eq!(a.transcript, b.transcript);
    assert_eq!(a.date, b.date);
}

#[test]
fn unreadable_year_is_a_parse_error() {
    assert!(matches!(error_of("two thousand", "1", "1"), ComicError::Parse));
}

#[test]
fn empty_month_is_a_parse_error() {
    assert!(matches!(error_of("2006", "", "1"), ComicError::Parse));
}

#[test]
fn signed_day_is_a_parse_error() {
    assert!(matches!(error_of("2006", "1", "-1"), ComicError::Parse));
    assert!(matches!(error_of("2006", "1", "+"), ComicError::Parse));
}

#[test]
fn month_thirteen_is_a_date_error() {
    assert!(matches!(error_of("2006", "13", "1"), ComicError::Date));
}

#[test]
fn day_zero_is_a_date_error() {
    assert!(matches!(error_of("2006", "1", "0"), ComicError::Date));
}

#[test]
fn february_thirty_first_is_a_date_error() {
    assert!(matches!(error_of("2006", "2", "31"), ComicError::Date));
}

#[test]
fn leap_days_follow_the_gregorian_rule() {
    assert!(matches!(error_of("2023", "2", "29"), ComicError::Date));
    assert!(matches!(error_of("1900", "2", "29"), ComicError::Date));
    assert_eq!(
        request("2024", "2", "29").comic().unwrap().date,
        ComicDate { year: 2024, month: 2, day: 29 }
    );
    assert_eq!(
        request("2000", "2", "29").comic().unwrap().date,
        ComicDate { year: 2000, month: 2, day: 29 }
    );
}

#[test]
fn parse_error_comes_before_date_error() {
    assert!(matches!(error_of("x", "13", "1"), ComicError::Parse));
}

#[test]
fn date_years_are_bounded() {
    assert_eq!(
        ComicDate::new(262142, 12, 31),
        Some(ComicDate { year: 262142, month: 12, day: 31 })
    );
    assert_eq!(ComicDate::new(262143, 1, 1), None);
    assert_eq!(
        ComicDate::new(-262143, 1, 1),
        Some(ComicDate { year: -262143, month: 1, day: 1 })
    );
    assert_eq!(ComicDate::new(-262144, 12, 31), None);
}

#[test]
fn thirty_day_months() {
    assert_eq!(ComicDate::new(2006, 4, 31), None);
    assert_eq!(ComicDate::new(2006, 11, 31), None);
    assert!(ComicDate::new(2006, 12, 31).is_some());
}

#[test]
fn dates_order_by_year_month_day() {
    let ten = ComicDate { year: 2006, month: 1, day: 1 };
    let later = ComicDate { year: 2024, month: 3, day: 15 };
    assert!(later >= ten);
    assert!(ComicDate { year: 2006, month: 2, day: 1 } > ten);
}

#[test]
fn url_of_comic_ten() {
    assert_eq!(Comic::url(10), String::from("https://xkcd.com/10/info.0.json"));
}

#[test]
fn url_of_single_digit_and_zero() {
    assert_eq!(Comic::url(7), String::from("https://xkcd.com/7/info.0.json"));
    assert_eq!(Comic::url(0), String::from("https://xkcd.com/0/info.0.json"));
}

#[test]
fn url_of_large_numbers() {
    assert_eq!(
        Comic::url(999999999),
        String::from("https://xkcd.com/999999999/info.0.json")
    );
    assert_eq!(
        Comic::url(u32::MAX),
        String::from("https://xkcd.com/4294967295/info.0.json")
    );
}

#[test]
fn url_of_latest() {
    assert_eq!(Comic::latest_url(), String::from("https://xkcd.com/info.0.json"));
}
