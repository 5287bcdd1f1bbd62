//! Video metadata: the tag table of a container and its best video stream,
//! and the fields (maker, model, software, creation time, GPS position)
//! read from it under the many names that vendors use.
use vstd::prelude::*;

use crate::text::{
    chars_of, opt_text, string_from_chars, trim, trim_end_char, trim_end_char_text, trim_text,
};

verus! {

/// What `str::to_lowercase` gives for `s` (the Unicode lower-case
/// mapping).
pub uninterp spec fn lowercase_text(s: Seq<char>) -> Seq<char>;

/// `str::to_lowercase` from std; its Unicode mapping is only named.
#[verifier::external_body]
fn to_lowercase(s: &str) -> (r: String)
    ensures
        r@ == lowercase_text(s@),
{
    s.to_lowercase()
}

/// The table that a run of insertions leaves: a later entry for a key
/// replaces an earlier one.
pub open spec fn tags_map(entries: Seq<(String, String)>) -> Map<Seq<char>, Seq<char>>
    decreases entries.len(),
{
    if entries.len() == 0 {
        Map::empty()
    } else {
        tags_map(entries.drop_last()).insert(entries.last().0@, entries.last().1@)
    }
}

/// A table of metadata tags, keyed by lower-cased tag name.
pub struct MetadataTags {
    entries: Vec<(String, String)>,
}

impl View for MetadataTags {
    type V = Map<Seq<char>, Seq<char>>;

    closed spec fn view(&self) -> Map<Seq<char>, Seq<char>> {
        tags_map(self.entries@)
    }
}

/// The value of `key` in the table made by `entries`, looked for from the
/// last entry back.
proof fn lemma_tags_lookup(entries: Seq<(String, String)>, key: Seq<char>, i: int)
    requires
        -1 <= i < entries.len(),
        i >= 0 ==> entries[i].0@ == key,
        forall|j: int| i < j < entries.len() ==> #[trigger] entries[j].0@ != key,
    ensures
        i >= 0 ==> tags_map(entries).contains_key(key) && tags_map(entries)[key] == entries[i].1@,
        i < 0 ==> !tags_map(entries).contains_key(key),
    decreases entries.len(),
{
    if entries.len() > 0 && i < entries.len() - 1 {
        let t = entries.drop_last();
        assert forall|j: int| i < j < t.len() implies #[trigger] t[j].0@ != key by {
            assert(t[j] == entries[j]);
        }
        if i >= 0 {
            assert(t[i] == entries[i]);
        }
        lemma_tags_lookup(t, key, i);
    }
}

impl MetadataTags {
    /// An empty table.
    pub fn new() -> (t: Self)
        ensures
            t@ == Map::<Seq<char>, Seq<char>>::empty(),
    {
        MetadataTags { entries: Vec::new() }
    }

    /// Records tag `key` (lower-cased) with `value`, replacing any value
    /// that the same lower-cased key had.
    pub fn insert(&mut self, key: &str, value: &str)
        ensures
            final(self)@ == old(self)@.insert(lowercase_text(key@), value@),
    {
        let k = to_lowercase(key);
        let v = String::from_str(value);
        self.entries.push((k, v));
        assert(self.entries@.drop_last() =~= old(self).entries@);
    }

    /// The value of tag `key`, if the table has it.
    pub fn get(&self, key: &str) -> (v: Option<String>)
        ensures
            opt_text(v) == (if self@.contains_key(key@) {
                Some(self@[key@])
            } else {
                None
            }),
    {
        let k = String::from_str(key);
        let n = self.entries.len();
        let mut i = n;
        while i > 0
            invariant
                i <= n,
                n == self.entries@.len(),
                k@ == key@,
                forall|j: int| i <= j < n ==> #[trigger] self.entries@[j].0@ != key@,
            decreases i,
        {
            if self.entries[i - 1].0 == k {
                proof {
                    lemma_tags_lookup(self.entries@, key@, i - 1);
                }
                return Some(self.entries[i - 1].1.clone());
            }
            i = i - 1;
        }
        proof {
            lemma_tags_lookup(self.entries@, key@, -1);
        }
        None
    }
}

/// The value of the first of `keys` that the table has.
pub open spec fn first_present(m: Map<Seq<char>, Seq<char>>, keys: Seq<&str>) -> Option<Seq<char>>
    decreases keys.len(),
{
    if keys.len() == 0 {
        None
    } else if m.contains_key(keys[0]@) {
        Some(m[keys[0]@])
    } else {
        first_present(m, keys.drop_first())
    }
}

/// Picks the value of the first of `keys` that `meta` has.
pub fn first_exist(meta: &MetadataTags, keys: &[&str]) -> (v: Option<String>)
    ensures
        opt_text(v) == first_present(meta@, keys@),
{
    assert(keys@.skip(0) =~= keys@);
    for i in 0..keys.len()
        invariant
            first_present(meta@, keys@) == first_present(meta@, keys@.skip(i as int)),
    {
        assert(keys@.skip(i as int)[0] == keys@[i as int]);
        assert(keys@.skip(i as int).drop_first() =~= keys@.skip(i + 1));
        match meta.get(keys[i]) {
            Some(v) => {
                return Some(v);
            },
            None => {},
        }
    }
    assert(keys@.skip(keys@.len() as int).len() == 0);
    None
}

// ---------------------------------------------------------------------------
// ISO 6709 locations
// ---------------------------------------------------------------------------

/// Scans an ISO 6709 text (`+37.3317-122.0302+012.3`) for its signed
/// numbers: the parts closed so far and the part being read. A `+` or `-`
/// after the first character starts a new part.
pub open spec fn iso_scan(s: Seq<char>) -> (Seq<Seq<char>>, Seq<char>)
    decreases s.len(),
{
    if s.len() == 0 {
        (Seq::empty(), Seq::empty())
    } else {
        let (parts, current) = iso_scan(s.drop_last());
        let c = s.last();
        if (c == '+' || c == '-') && s.len() > 1 {
            (parts.push(current), seq![c])
        } else {
            (parts, current.push(c))
        }
    }
}

/// The signed numbers of an ISO 6709 text, in order.
pub open spec fn iso_parts(s: Seq<char>) -> Seq<Seq<char>> {
    let (parts, current) = iso_scan(s);
    if current.len() > 0 {
        parts.push(current)
    } else {
        parts
    }
}

/// The parts of an Apple ISO 6709 location tag: the text trimmed of white
/// space and of trailing `/`, split before each sign.
pub open spec fn location_parts(raw: Seq<char>) -> Seq<Seq<char>> {
    iso_parts(trim_end_char_text(trim_text(raw), '/'))
}

/// Splits `s` before each `+` or `-` that is not its first character.
fn split_signed(s: &[char]) -> (parts: Vec<String>)
    ensures
        parts@.len() == iso_parts(s@).len(),
        forall|j: int| 0 <= j < parts@.len() ==> #[trigger] parts@[j]@ == iso_parts(s@)[j],
{
    let mut parts: Vec<String> = Vec::new();
    let mut current: Vec<char> = Vec::new();
    let ghost mut gparts: Seq<Seq<char>> = Seq::empty();
    for i in 0..s.len()
        invariant
            iso_scan(s@.take(i as int)) == (gparts, current@),
            parts@.len() == gparts.len(),
            forall|j: int| 0 <= j < parts@.len() ==> #[trigger] parts@[j]@ == gparts[j],
    {
        let c = s[i];
        assert(s@.take(i + 1).drop_last() =~= s@.take(i as int));
        if (c == '+' || c == '-') && i > 0 {
            let closed = string_from_chars(current.as_slice());
            parts.push(closed);
            proof {
                gparts = gparts.push(current@);
            }
            current = Vec::new();
            current.push(c);
            assert(current@ =~= seq![c]);
        } else {
            current.push(c);
        }
    }
    assert(s@.take(s@.len() as int) =~= s@);
    if current.len() > 0 {
        let last = string_from_chars(current.as_slice());
        parts.push(last);
        proof {
            gparts = gparts.push(current@);
        }
    }
    parts
}

/// What the parts of a location put together give back: the scanned
/// text, read so far.
proof fn lemma_iso_scan_flatten(s: Seq<char>)
    ensures
        iso_scan(s).0.flatten() + iso_scan(s).1 == s,
    decreases s.len(),
{
    broadcast use Seq::lemma_flatten_push;

    if s.len() > 0 {
        lemma_iso_scan_flatten(s.drop_last());
        let (parts, current) = iso_scan(s.drop_last());
        assert(s.drop_last().push(s.last()) =~= s);
        let c = s.last();
        if (c == '+' || c == '-') && s.len() > 1 {
            assert(parts.push(current).flatten() + seq![c] =~= parts.flatten() + current + seq![c]);
        } else {
            assert(parts.flatten() + current.push(c) =~= parts.flatten() + current + seq![c]);
        }
    }
}

/// Splitting a location loses nothing: the parts put together give back
/// the text they were split from.
pub proof fn lemma_iso_parts_flatten(s: Seq<char>)
    ensures
        iso_parts(s).flatten() == s,
{
    broadcast use Seq::lemma_flatten_push;

    lemma_iso_scan_flatten(s);
    let (parts, current) = iso_scan(s);
    if current.len() == 0 {
        assert(parts.flatten() + current =~= parts.flatten());
    }
}

/// After the first, every part of a location begins with its sign.
pub proof fn lemma_iso_parts_signed(s: Seq<char>, j: int)
    requires
        0 < j < iso_parts(s).len(),
    ensures
        iso_parts(s)[j].len() > 0,
        iso_parts(s)[j][0] == '+' || iso_parts(s)[j][0] == '-',
{
    lemma_iso_scan_signed(s);
}

proof fn lemma_iso_scan_signed(s: Seq<char>)
    ensures
        forall|j: int|
            0 < j < iso_scan(s).0.len() ==> (#[trigger] iso_scan(s).0[j]).len() > 0 && (
            iso_scan(s).0[j][0] == '+' || iso_scan(s).0[j][0] == '-'),
        iso_scan(s).0.len() > 0 ==> (iso_scan(s).1.len() > 0 && (iso_scan(s).1[0] == '+'
            || iso_scan(s).1[0] == '-')),
        iso_scan(s).0.len() == 0 ==> (s.len() > 0 <==> iso_scan(s).1.len() > 0),
        s.len() > 0 ==> iso_scan(s).1.len() > 0,
    decreases s.len(),
{
    if s.len() > 0 {
        lemma_iso_scan_signed(s.drop_last());
    }
}

// ---------------------------------------------------------------------------
// Fields
// ---------------------------------------------------------------------------

/// The metadata fields of a video, as texts: maker, model, creation time,
/// software, and the texts that the GPS latitude, longitude and altitude
/// are read from as decimal numbers.
#[derive(Debug)]
pub struct VideoMetadataFields {
    pub e_make: Option<String>,
    pub e_model: Option<String>,
    pub e_date_time: Option<String>,
    pub e_software: Option<String>,
    pub gps_latitude: Option<String>,
    pub gps_longitude: Option<String>,
    pub gps_altitude: Option<String>,
}

impl VideoMetadataFields {
    /// All fields absent.
    pub fn new() -> (m: Self)
        ensures
            m.e_make is None,
            m.e_model is None,
            m.e_date_time is None,
            m.e_software is None,
            m.gps_latitude is None,
            m.gps_longitude is None,
            m.gps_altitude is None,
    {
        VideoMetadataFields {
            e_make: None,
            e_model: None,
            e_date_time: None,
            e_software: None,
            gps_latitude: None,
            gps_longitude: None,
            gps_altitude: None,
        }
    }
}

/// Reads an Apple ISO 6709 location (`+37.3317-122.0302+12.3/`) into the
/// GPS fields: its first, second and third signed numbers become the
/// latitude, longitude and altitude texts; a field whose number is missing
/// keeps its value.
pub fn parse_apple_iso6709(raw: &str, m: &mut VideoMetadataFields)
    ensures
        location_parts(raw@).len() >= 1 ==> opt_text(final(m).gps_latitude) == Some(
            location_parts(raw@)[0],
        ),
        location_parts(raw@).len() < 1 ==> final(m).gps_latitude == old(m).gps_latitude,
        location_parts(raw@).len() >= 2 ==> opt_text(final(m).gps_longitude) == Some(
            location_parts(raw@)[1],
        ),
        location_parts(raw@).len() < 2 ==> final(m).gps_longitude == old(m).gps_longitude,
        location_parts(raw@).len() >= 3 ==> opt_text(final(m).gps_altitude) == Some(
            location_parts(raw@)[2],
        ),
        location_parts(raw@).len() < 3 ==> final(m).gps_altitude == old(m).gps_altitude,
        final(m).e_make == old(m).e_make,
        final(m).e_model == old(m).e_model,
        final(m).e_date_time == old(m).e_date_time,
        final(m).e_software == old(m).e_software,
{
    let cs = chars_of(raw);
    let trimmed = trim(cs.as_slice());
    let s = trim_end_char(trimmed.as_slice(), '/');
    let parts = split_signed(s.as_slice());
    if parts.len() >= 1 {
        m.gps_latitude = Some(parts[0].clone());
    }
    if parts.len() >= 2 {
        m.gps_longitude = Some(parts[1].clone());
    }
    if parts.len() >= 3 {
        m.gps_altitude = Some(parts[2].clone());
    }
}

/// Tag names of the maker, in order of preference.
pub open spec fn make_keys() -> Seq<&'static str> {
    seq!["make", "camera_make", "com.apple.quicktime.make", "com.android.capture.camera.make"]
}

/// Tag names of the model, in order of preference.
pub open spec fn model_keys() -> Seq<&'static str> {
    seq!["model", "camera_model", "com.apple.quicktime.model", "com.android.capture.camera.model"]
}

/// Tag names of the software, in order of preference.
pub open spec fn software_keys() -> Seq<&'static str> {
    seq![
        "software",
        "com.apple.quicktime.software",
        "com.android.capture.camera.software",
        "encoder",
    ]
}

/// Tag names of the creation time, in order of preference.
pub open spec fn date_time_keys() -> Seq<&'static str> {
    seq![
        "com.apple.quicktime.creationdate",
        "com.android.capture.framedate",
        "creation_time",
        "media_time",
        "date",
        "datetimeoriginal",
    ]
}

/// Tag names of an ISO 6709 location, in order of preference.
pub open spec fn location_keys() -> Seq<&'static str> {
    seq!["location", "location-eng", "com.apple.quicktime.location.iso6709"]
}

/// The maker is the `make` tag, else `camera_make`, else Apple's, else
/// Android's maker tag; none when the table has none of them.
pub proof fn lemma_make_preference(m: Map<Seq<char>, Seq<char>>)
    ensures
        m.contains_key("make"@)
            ==> first_present(m, make_keys()) == Some(m["make"@]),
        !m.contains_key("make"@) && m.contains_key("camera_make"@)
            ==> first_present(m, make_keys()) == Some(m["camera_make"@]),
        !m.contains_key("make"@)
            && !m.contains_key("camera_make"@)
            && m.contains_key("com.apple.quicktime.make"@)
            ==> first_present(m, make_keys()) == Some(m["com.apple.quicktime.make"@]),
        !m.contains_key("make"@)
            && !m.contains_key("camera_make"@)
            && !m.contains_key("com.apple.quicktime.make"@)
            && m.contains_key("com.android.capture.camera.make"@)
            ==> first_present(m, make_keys()) == Some(m["com.android.capture.camera.make"@]),
        !m.contains_key("make"@)
            && !m.contains_key("camera_make"@)
            && !m.contains_key("com.apple.quicktime.make"@)
            && !m.contains_key("com.android.capture.camera.make"@)
            ==> first_present(m, make_keys()) == None::<Seq<char>>,
{
    reveal_with_fuel(first_present, 5);
}

/// The model is the `model` tag, else `camera_model`, else Apple's, else
/// Android's model tag; none when the table has none of them.
pub proof fn lemma_model_preference(m: Map<Seq<char>, Seq<char>>)
    ensures
        m.contains_key("model"@)
            ==> first_present(m, model_keys()) == Some(m["model"@]),
        !m.contains_key("model"@) && m.contains_key("camera_model"@)
            ==> first_present(m, model_keys()) == Some(m["camera_model"@]),
        !m.contains_key("model"@)
            && !m.contains_key("camera_model"@)
            && m.contains_key("com.apple.quicktime.model"@)
            ==> first_present(m, model_keys()) == Some(m["com.apple.quicktime.model"@]),
        !m.contains_key("model"@)
            && !m.contains_key("camera_model"@)
            && !m.contains_key("com.apple.quicktime.model"@)
            && m.contains_key("com.android.capture.camera.model"@)
            ==> first_present(m, model_keys()) == Some(m["com.android.capture.camera.model"@]),
        !m.contains_key("model"@)
            && !m.contains_key("camera_model"@)
            && !m.contains_key("com.apple.quicktime.model"@)
            && !m.contains_key("com.android.capture.camera.model"@)
            ==> first_present(m, model_keys()) == None::<Seq<char>>,
{
    reveal_with_fuel(first_present, 5);
}

/// The software is the `software` tag, else Apple's, else Android's
/// software tag; the stream's `encoder` tag is taken only when none of
/// them is present.
pub proof fn lemma_software_preference(m: Map<Seq<char>, Seq<char>>)
    ensures
        m.contains_key("software"@)
            ==> first_present(m, software_keys()) == Some(m["software"@]),
        !m.contains_key("software"@) && m.contains_key("com.apple.quicktime.software"@)
            ==> first_present(m, software_keys()) == Some(m["com.apple.quicktime.software"@]),
        !m.contains_key("software"@)
            && !m.contains_key("com.apple.quicktime.software"@)
            && m.contains_key("com.android.capture.camera.software"@)
            ==> first_present(m, software_keys()) == Some(m["com.android.capture.camera.software"@]),
        !m.contains_key("software"@)
            && !m.contains_key("com.apple.quicktime.software"@)
            && !m.contains_key("com.android.capture.camera.software"@)
            && m.contains_key("encoder"@)
            ==> first_present(m, software_keys()) == Some(m["encoder"@]),
        !m.contains_key("software"@)
            && !m.contains_key("com.apple.quicktime.software"@)
            && !m.contains_key("com.android.capture.camera.software"@)
            && !m.contains_key("encoder"@)
            ==> first_present(m, software_keys()) == None::<Seq<char>>,
{
    reveal_with_fuel(first_present, 5);
}

/// The creation time is Apple's creation date, else Android's frame date,
/// else `creation_time`, `media_time`, `date` and `datetimeoriginal` in
/// that order.
pub proof fn lemma_date_time_preference(m: Map<Seq<char>, Seq<char>>)
    ensures
        m.contains_key("com.apple.quicktime.creationdate"@)
            ==> first_present(m, date_time_keys()) == Some(m["com.apple.quicktime.creationdate"@]),
        !m.contains_key("com.apple.quicktime.creationdate"@)
            && m.contains_key("com.android.capture.framedate"@)
            ==> first_present(m, date_time_keys()) == Some(m["com.android.capture.framedate"@]),
        !m.contains_key("com.apple.quicktime.creationdate"@)
            && !m.contains_key("com.android.capture.framedate"@)
            && m.contains_key("creation_time"@)
            ==> first_present(m, date_time_keys()) == Some(m["creation_time"@]),
        !m.contains_key("com.apple.quicktime.creationdate"@)
            && !m.contains_key("com.android.capture.framedate"@)
            && !m.contains_key("creation_time"@)
            && m.contains_key("media_time"@)
            ==> first_present(m, date_time_keys()) == Some(m["media_time"@]),
        !m.contains_key("com.apple.quicktime.creationdate"@)
            && !m.contains_key("com.android.capture.framedate"@)
            && !m.contains_key("creation_time"@)
            && !m.contains_key("media_time"@)
            && m.contains_key("date"@)
            ==> first_present(m, date_time_keys()) == Some(m["date"@]),
        !m.contains_key("com.apple.quicktime.creationdate"@)
            && !m.contains_key("com.android.capture.framedate"@)
            && !m.contains_key("creation_time"@)
            && !m.contains_key("media_time"@)
            && !m.contains_key("date"@)
            && m.contains_key("datetimeoriginal"@)
            ==> first_present(m, date_time_keys()) == Some(m["datetimeoriginal"@]),
        !m.contains_key("com.apple.quicktime.creationdate"@)
            && !m.contains_key("com.android.capture.framedate"@)
            && !m.contains_key("creation_time"@)
            && !m.contains_key("media_time"@)
            && !m.contains_key("date"@)
            && !m.contains_key("datetimeoriginal"@)
            ==> first_present(m, date_time_keys()) == None::<Seq<char>>,
{
    reveal_with_fuel(first_present, 7);
}

/// Part `k` of the location tag, if there is a location with that many
/// parts.
pub open spec fn location_part(m: Map<Seq<char>, Seq<char>>, k: int) -> Option<Seq<char>> {
    match first_present(m, location_keys()) {
        Some(loc) => if location_parts(loc).len() > k {
            Some(location_parts(loc)[k])
        } else {
            None
        },
        None => None,
    }
}

/// The value of tag `key`, if present.
pub open spec fn tag(m: Map<Seq<char>, Seq<char>>, key: &str) -> Option<Seq<char>> {
    if m.contains_key(key@) {
        Some(m[key@])
    } else {
        None
    }
}

/// The latitude text: DJI's tag, else the generic GPS tag, else the first
/// number of the location.
pub open spec fn latitude_text(m: Map<Seq<char>, Seq<char>>) -> Option<Seq<char>> {
    if m.contains_key("com.dji.gpslatitude"@) {
        tag(m, "com.dji.gpslatitude")
    } else if m.contains_key("gps_latitude"@) {
        tag(m, "gps_latitude")
    } else {
        location_part(m, 0)
    }
}

/// The longitude text: DJI's tag, else the generic GPS tag, else the
/// second number of the location.
pub open spec fn longitude_text(m: Map<Seq<char>, Seq<char>>) -> Option<Seq<char>> {
    if m.contains_key("com.dji.gpslongitude"@) {
        tag(m, "com.dji.gpslongitude")
    } else if m.contains_key("gps_longitude"@) {
        tag(m, "gps_longitude")
    } else {
        location_part(m, 1)
    }
}

/// The altitude text: the generic GPS tag, else the third number of the
/// location.
pub open spec fn altitude_text(m: Map<Seq<char>, Seq<char>>) -> Option<Seq<char>> {
    if m.contains_key("gps_altitude"@) {
        tag(m, "gps_altitude")
    } else {
        location_part(m, 2)
    }
}

/// The location text is the `location` tag, else `location-eng`, else
/// Apple's ISO 6709 location tag.
pub proof fn lemma_location_preference(m: Map<Seq<char>, Seq<char>>)
    ensures
        m.contains_key("location"@)
            ==> first_present(m, location_keys()) == Some(m["location"@]),
        !m.contains_key("location"@)
            && m.contains_key("location-eng"@)
            ==> first_present(m, location_keys()) == Some(m["location-eng"@]),
        !m.contains_key("location"@)
            && !m.contains_key("location-eng"@)
            && m.contains_key("com.apple.quicktime.location.iso6709"@)
            ==> first_present(m, location_keys()) == Some(m["com.apple.quicktime.location.iso6709"@]),
        !m.contains_key("location"@)
            && !m.contains_key("location-eng"@)
            && !m.contains_key("com.apple.quicktime.location.iso6709"@)
            ==> first_present(m, location_keys()) == None::<Seq<char>>,
{
    reveal_with_fuel(first_present, 4);
}

/// The GPS fields: DJI's latitude and longitude tags win over the generic
/// GPS tags, which win over the numbers of the ISO 6709 location (first
/// latitude, then longitude, then altitude); the altitude has no DJI tag.
pub proof fn lemma_gps_preference(m: Map<Seq<char>, Seq<char>>)
    ensures
        latitude_text(m) == (if m.contains_key("com.dji.gpslatitude"@) {
            Some(m["com.dji.gpslatitude"@])
        } else if m.contains_key("gps_latitude"@) {
            Some(m["gps_latitude"@])
        } else {
            location_part(m, 0)
        }),
        longitude_text(m) == (if m.contains_key("com.dji.gpslongitude"@) {
            Some(m["com.dji.gpslongitude"@])
        } else if m.contains_key("gps_longitude"@) {
            Some(m["gps_longitude"@])
        } else {
            location_part(m, 1)
        }),
        altitude_text(m) == (if m.contains_key("gps_altitude"@) {
            Some(m["gps_altitude"@])
        } else {
            location_part(m, 2)
        }),
{
}

/// Reads the metadata fields from a tag table.
pub fn build_video_metadata(meta: &MetadataTags) -> (m: VideoMetadataFields)
    ensures
        opt_text(m.e_make) == first_present(meta@, make_keys()),
        opt_text(m.e_model) == first_present(meta@, model_keys()),
        opt_text(m.e_software) == first_present(meta@, software_keys()),
        opt_text(m.e_date_time) == first_present(meta@, date_time_keys()),
        opt_text(m.gps_latitude) == latitude_text(meta@),
        opt_text(m.gps_longitude) == longitude_text(meta@),
        opt_text(m.gps_altitude) == altitude_text(meta@),
{
    let mut m = VideoMetadataFields::new();
    let make_keys_list = vec![
        "make",
        "camera_make",
        "com.apple.quicktime.make",
        "com.android.capture.camera.make",
    ];
    assert(make_keys_list@ =~= make_keys());
    m.e_make = first_exist(meta, make_keys_list.as_slice());
    let model_keys_list = vec![
        "model",
        "camera_model",
        "com.apple.quicktime.model",
        "com.android.capture.camera.model",
    ];
    assert(model_keys_list@ =~= model_keys());
    m.e_model = first_exist(meta, model_keys_list.as_slice());
    let software_keys_list = vec![
        "software",
        "com.apple.quicktime.software",
        "com.android.capture.camera.software",
        "encoder",
    ];
    assert(software_keys_list@ =~= software_keys());
    m.e_software = first_exist(meta, software_keys_list.as_slice());
    let date_time_keys_list = vec![
        "com.apple.quicktime.creationdate",
        "com.android.capture.framedate",
        "creation_time",
        "media_time",
        "date",
        "datetimeoriginal",
    ];
    assert(date_time_keys_list@ =~= date_time_keys());
    m.e_date_time = first_exist(meta, date_time_keys_list.as_slice());
    let location_keys_list = vec!["location", "location-eng", "com.apple.quicktime.location.iso6709"];
    assert(location_keys_list@ =~= location_keys());
    if let Some(loc) = first_exist(meta, location_keys_list.as_slice()) {
        parse_apple_iso6709(loc.as_str(), &mut m);
    }
    if let Some(lat) = meta.get("gps_latitude") {
        m.gps_latitude = Some(lat);
    }
    if let Some(lon) = meta.get("gps_longitude") {
        m.gps_longitude = Some(lon);
    }
    if let Some(alt) = meta.get("gps_altitude") {
        m.gps_altitude = Some(alt);
    }
    if let Some(lat) = meta.get("com.dji.gpslatitude") {
        m.gps_latitude = Some(lat);
    }
    if let Some(lon) = meta.get("com.dji.gpslongitude") {
        m.gps_longitude = Some(lon);
    }
    m
}

} // verus!
