//! Comic records: where they are fetched from, and how a decoded payload
//! becomes a [`Comic`].

use vstd::prelude::*;
use vstd::string::*;

use crate::date::{is_valid_ymd, ComicDate};
use crate::decimal::{decimal_of, i32_of, parse_i32, parse_u32, u32_of, write_decimal};

verus! {

/// Why a comic could not be had.
#[derive(Clone, Debug)]
pub enum ComicError {
    /// The request failed, or the service answered with a non-success status.
    Transport(String),
    /// The body is not JSON of the expected shape.
    Decode(String),
    /// The year, month or day is not a decimal integer.
    Parse,
    /// Year, month and day do not name an existing day.
    Date,
}

/// A comic's metadata as the service sends it: the date comes as three
/// separate strings.
#[derive(Clone, Debug)]
pub struct ComicRequest {
    pub month: String,
    pub num: u32,
    pub link: String,
    pub year: String,
    pub news: String,
    pub transcript: String,
    pub alt: String,
    pub img: String,
    pub title: String,
    pub day: String,
}

/// An xkcd comic.
#[derive(Clone, Debug)]
pub struct Comic {
    /// The full title of the comic
    pub title: String,
    /// A URL to this comic on the xkcd site
    pub link: String,
    /// The comic number
    pub num: u32,
    /// A URL to this comic's image
    pub img: String,
    /// The alt-text / title-text for this image
    pub alt: String,
    /// Occasional news that accompanies the comic
    pub news: String,
    /// A transcript of this comic, if available
    pub transcript: String,
    /// The publication date of this comic, in UTC
    pub date: ComicDate,
}

/// The date that the three date strings of a payload give, or why they give none.
pub open spec fn date_of(year: Seq<char>, month: Seq<char>, day: Seq<char>) -> Result<
    ComicDate,
    ComicError,
> {
    let (y, m, d) = (i32_of(year), u32_of(month), u32_of(day));
    if y is None || m is None || d is None {
        Err(ComicError::Parse)
    } else if !is_valid_ymd(y->0 as int, m->0 as int, d->0 as int) {
        Err(ComicError::Date)
    } else {
        Ok(ComicDate { year: y->0, month: m->0, day: d->0 })
    }
}

/// The address of comic `number`'s metadata.
pub open spec fn spec_comic_url(number: nat) -> Seq<char> {
    "https://xkcd.com/"@ + decimal_of(number) + "/info.0.json"@
}

/// The address of the latest comic's metadata.
pub open spec fn spec_latest_url() -> Seq<char> {
    "https://xkcd.com/info.0.json"@
}

impl Comic {
    /// `self` and `other` hold the same text, number and date.
    pub open spec fn same_as(&self, other: Comic) -> bool {
        &&& self.title@ == other.title@
        &&& self.link@ == other.link@
        &&& self.num == other.num
        &&& self.img@ == other.img@
        &&& self.alt@ == other.alt@
        &&& self.news@ == other.news@
        &&& self.transcript@ == other.transcript@
        &&& self.date == other.date
    }

    /// The address from which comic `number`'s metadata is fetched. The number
    /// is not checked here: the service itself refuses one it has not published.
    pub fn url(number: u32) -> (r: String)
        ensures
            r@ == spec_comic_url(number as nat),
    {
        let mut url = String::from_str("https://xkcd.com/");
        write_decimal(&mut url, number);
        url.append("/info.0.json");
        url
    }

    /// The address from which the latest comic's metadata is fetched.
    pub fn latest_url() -> (r: String)
        ensures
            r@ == spec_latest_url(),
    {
        String::from_str("https://xkcd.com/info.0.json")
    }
}

impl ComicRequest {
    /// `self` and `other` hold the same text and number.
    pub open spec fn same_as(&self, other: ComicRequest) -> bool {
        &&& self.month@ == other.month@
        &&& self.num == other.num
        &&& self.link@ == other.link@
        &&& self.year@ == other.year@
        &&& self.news@ == other.news@
        &&& self.transcript@ == other.transcript@
        &&& self.alt@ == other.alt@
        &&& self.img@ == other.img@
        &&& self.title@ == other.title@
        &&& self.day@ == other.day@
    }

    /// `c` carries this payload's text fields and number unchanged.
    pub open spec fn same_fields(&self, c: Comic) -> bool {
        &&& c.title@ == self.title@
        &&& c.link@ == self.link@
        &&& c.num == self.num
        &&& c.img@ == self.img@
        &&& c.alt@ == self.alt@
        &&& c.news@ == self.news@
        &&& c.transcript@ == self.transcript@
    }

    /// What this payload becomes: a comic with the same fields and the date
    /// that its date strings give, or the error that they give.
    pub open spec fn spec_comic(&self) -> Result<Comic, ComicError> {
        match date_of(self.year@, self.month@, self.day@) {
            Ok(date) => Ok(
                Comic {
                    title: self.title,
                    link: self.link,
                    num: self.num,
                    img: self.img,
                    alt: self.alt,
                    news: self.news,
                    transcript: self.transcript,
                    date,
                },
            ),
            Err(e) => Err(e),
        }
    }

    /// Converts the payload into a comic, reading and checking its date.
    pub fn comic(self) -> (r: Result<Comic, ComicError>)
        ensures
            r == self.spec_comic(),
            r matches Ok(c) ==> self.same_fields(c) && c.date.wf(),
            r is Err <==> date_of(self.year@, self.month@, self.day@) is Err,
    {
        let year = parse_i32(self.year.as_str());
        let month = parse_u32(self.month.as_str());
        let day = parse_u32(self.day.as_str());
        let date = match (year, month, day) {
            (Some(y), Some(m), Some(d)) => match ComicDate::new(y, m, d) {
                Some(date) => date,
                None => return Err(ComicError::Date),
            },
            _ => return Err(ComicError::Parse),
        };
        Ok(
            Comic {
                title: self.title,
                link: self.link,
                num: self.num,
                img: self.img,
                alt: self.alt,
                news: self.news,
                transcript: self.transcript,
                date,
            },
        )
    }
}

/// Converting two payloads with the same contents gives the same outcome:
/// equal comics, or the same error. Fetching a published comic twice
/// therefore yields equal records whenever the service sends the same
/// payload twice.
pub proof fn lemma_comic_repeatable(a: ComicRequest, b: ComicRequest)
    requires
        a.same_as(b),
    ensures
        match (a.spec_comic(), b.spec_comic()) {
            (Ok(x), Ok(y)) => x.same_as(y),
            (Err(x), Err(y)) => x == y,
            _ => false,
        },
{
}

} // verus!
