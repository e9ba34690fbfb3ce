//! Station configuration: built-in stations overlaid by the user's, each station table
//! replaced whole, and every station checked in alias order.
use crate::radio::icy::{encoding_known, encoding_label_known};
use crate::text::{any_control, chars_of, has_ctrl, string_of};
use crate::builds::{is_absolute_path, join_path, path_absolute, path_join};
use crate::web::{validate_spec, validate_url, UrlError};
use vstd::prelude::*;

verus! {

/// Code-point (equivalently, UTF-8 byte) lexicographic order: the order of a `BTreeMap`
/// keyed by `String`.
pub open spec fn seq_lt(a: Seq<char>, b: Seq<char>) -> bool
    decreases a.len(),
{
    if a.len() == 0 {
        b.len() > 0
    } else if b.len() == 0 {
        false
    } else if a[0] != b[0] {
        (a[0] as u32) < (b[0] as u32)
    } else {
        seq_lt(a.drop_first(), b.drop_first())
    }
}

/// No text precedes itself.
pub proof fn lemma_seq_lt_irreflexive(a: Seq<char>)
    ensures
        !seq_lt(a, a),
    decreases a.len(),
{
    if a.len() > 0 {
        lemma_seq_lt_irreflexive(a.drop_first());
    }
}

/// Of two texts, at most one precedes the other.
pub proof fn lemma_seq_lt_asymmetric(a: Seq<char>, b: Seq<char>)
    ensures
        !(seq_lt(a, b) && seq_lt(b, a)),
    decreases a.len(),
{
    if a.len() > 0 && b.len() > 0 && a[0] == b[0] {
        lemma_seq_lt_asymmetric(a.drop_first(), b.drop_first());
    }
}

/// Of two different texts, one precedes the other.
pub proof fn lemma_seq_lt_total(a: Seq<char>, b: Seq<char>)
    ensures
        a == b || seq_lt(a, b) || seq_lt(b, a),
    decreases a.len(),
{
    if a.len() > 0 && b.len() > 0 && a[0] == b[0] {
        lemma_seq_lt_total(a.drop_first(), b.drop_first());
        if a.drop_first() == b.drop_first() {
            assert(a =~= seq![a[0]] + a.drop_first());
            assert(b =~= seq![b[0]] + b.drop_first());
        }
    } else if a.len() > 0 && b.len() > 0 {
        let (x, y) = (a[0], b[0]);
        if (x as u32) == (y as u32) {
            vstd::utf8::char_u32_cast(x, x as u32);
            vstd::utf8::char_u32_cast(y, y as u32);
        }
    } else if a.len() == 0 && b.len() == 0 {
        assert(a =~= b);
    }
}

/// The order is transitive.
pub proof fn lemma_seq_lt_transitive(a: Seq<char>, b: Seq<char>, c: Seq<char>)
    requires
        seq_lt(a, b),
        seq_lt(b, c),
    ensures
        seq_lt(a, c),
    decreases a.len(),
{
    if a.len() > 0 && b.len() > 0 && c.len() > 0 && a[0] == b[0] && b[0] == c[0] {
        lemma_seq_lt_transitive(a.drop_first(), b.drop_first(), c.drop_first());
    }
}

/// Whether `a` precedes `b`.
pub fn chars_lt(a: &[char], b: &[char]) -> (r: bool)
    ensures
        r == seq_lt(a@, b@),
{
    let mut i: usize = 0;
    assert(a@.skip(0) =~= a@);
    assert(b@.skip(0) =~= b@);
    while i < a.len() && i < b.len()
        invariant
            i <= a@.len(),
            i <= b@.len(),
            seq_lt(a@, b@) == seq_lt(a@.skip(i as int), b@.skip(i as int)),
        decreases a@.len() - i,
    {
        let x = a[i];
        let y = b[i];
        if x != y {
            assert(a@.skip(i as int)[0] == x && b@.skip(i as int)[0] == y);
            return (x as u32) < (y as u32);
        }
        assert(a@.skip(i as int).drop_first() =~= a@.skip(i + 1));
        assert(b@.skip(i as int).drop_first() =~= b@.skip(i + 1));
        i = i + 1;
    }
    i == a.len() && i < b.len()
}

/// Whether `a` precedes `b`.
pub fn str_lt(a: &str, b: &str) -> (r: bool)
    ensures
        r == seq_lt(a@, b@),
{
    let x = chars_of(a);
    let y = chars_of(b);
    chars_lt(x.as_slice(), y.as_slice())
}

/// A station as the library models it.
pub struct StationView {
    pub url: Seq<char>,
    pub name: Option<Seq<char>>,
    pub metadata_encoding: Option<Seq<char>>,
}

/// The characters of an optional text.
pub open spec fn opt_chars(s: Option<String>) -> Option<Seq<char>> {
    match s {
        Some(t) => Some(t@),
        None => None,
    }
}

/// A configured station: its URL, and optionally a display name and the encoding of its
/// ICY metadata.
#[derive(Debug)]
pub struct Station {
    pub url: String,
    pub name: Option<String>,
    pub metadata_encoding: Option<String>,
}

impl View for Station {
    type V = StationView;

    open spec fn view(&self) -> StationView {
        StationView {
            url: self.url@,
            name: opt_chars(self.name),
            metadata_encoding: opt_chars(self.metadata_encoding),
        }
    }
}

fn copy_opt(s: &Option<String>) -> (r: Option<String>)
    ensures
        opt_chars(r) == opt_chars(*s),
{
    match s {
        Some(t) => Some(t.clone()),
        None => None,
    }
}

impl Station {
    /// A copy of the station.
    pub fn duplicate(&self) -> (r: Station)
        ensures
            r@ == self@,
    {
        Station {
            url: self.url.clone(),
            name: copy_opt(&self.name),
            metadata_encoding: copy_opt(&self.metadata_encoding),
        }
    }
}

/// The entries of a configuration, in order.
pub open spec fn entries_view(v: Seq<(String, Station)>) -> Seq<(Seq<char>, StationView)> {
    v.map_values(|e: (String, Station)| (e.0@, e.1@))
}

/// The station an entry list holds for `alias`: the last entry with that alias.
pub open spec fn lookup(s: Seq<(Seq<char>, StationView)>, alias: Seq<char>) -> Option<StationView>
    decreases s.len(),
{
    if s.len() == 0 {
        None
    } else if s.last().0 == alias {
        Some(s.last().1)
    } else {
        lookup(s.drop_last(), alias)
    }
}

/// The stations of an entry list, by alias.
pub open spec fn station_map(s: Seq<(Seq<char>, StationView)>) -> Map<Seq<char>, StationView> {
    Map::new(|k: Seq<char>| lookup(s, k) is Some, |k: Seq<char>| lookup(s, k)->0)
}

/// Entries strictly ordered by alias.
pub open spec fn sorted(s: Seq<(Seq<char>, StationView)>) -> bool {
    forall|i: int, j: int| 0 <= i < j < s.len() ==> seq_lt(#[trigger] s[i].0, #[trigger] s[j].0)
}

/// Looking up in a concatenation finds the later part first.
proof fn lemma_lookup_concat(
    a: Seq<(Seq<char>, StationView)>,
    b: Seq<(Seq<char>, StationView)>,
    k: Seq<char>,
)
    ensures
        lookup(a + b, k) == match lookup(b, k) {
            Some(v) => Some(v),
            None => lookup(a, k),
        },
    decreases b.len(),
{
    if b.len() == 0 {
        assert(a + b =~= a);
    } else {
        assert((a + b).drop_last() =~= a + b.drop_last());
        assert((a + b).last() == b.last());
        lemma_lookup_concat(a, b.drop_last(), k);
    }
}

/// A lookup finds nothing exactly where no entry has the alias, and what it finds is an
/// entry.
proof fn lemma_lookup_found(s: Seq<(Seq<char>, StationView)>, k: Seq<char>)
    ensures
        lookup(s, k) is None <==> forall|j: int| 0 <= j < s.len() ==> #[trigger] s[j].0 != k,
        lookup(s, k) matches Some(v) ==> exists|j: int|
            0 <= j < s.len() && #[trigger] s[j] == (k, v),
    decreases s.len(),
{
    if s.len() > 0 {
        lemma_lookup_found(s.drop_last(), k);
        if s.last().0 == k {
            assert(s[s.len() - 1] == (k, s.last().1));
        } else {
            assert forall|j: int| 0 <= j < s.len() - 1 implies #[trigger] s[j] == s.drop_last()[j] by {}
            if lookup(s.drop_last(), k) is None {
                assert forall|j: int| 0 <= j < s.len() implies #[trigger] s[j].0 != k by {
                    if j < s.len() - 1 {
                        assert(s.drop_last()[j].0 != k);
                    }
                }
            } else {
                let v = lookup(s.drop_last(), k)->0;
                let j = choose|j: int| 0 <= j < s.drop_last().len() && #[trigger] s.drop_last()[j]
                    == (k, v);
                assert(s[j] == (k, v));
            }
        }
    }
}

/// In a sorted list, the lookup of an entry's alias finds that entry.
proof fn lemma_sorted_lookup(s: Seq<(Seq<char>, StationView)>, j: int)
    requires
        sorted(s),
        0 <= j < s.len(),
    ensures
        lookup(s, s[j].0) == Some(s[j].1),
{
    let k = s[j].0;
    let a = s.subrange(0, j + 1);
    let b = s.subrange(j + 1, s.len() as int);
    assert(s =~= a + b);
    assert forall|i: int| 0 <= i < b.len() implies #[trigger] b[i].0 != k by {
        assert(b[i] == s[j + 1 + i]);
        assert(seq_lt(s[j].0, s[j + 1 + i].0));
        lemma_seq_lt_irreflexive(k);
    }
    lemma_lookup_found(b, k);
    lemma_lookup_concat(a, b, k);
    assert(a.last() == s[j]);
}

/// The configured stations, by alias, kept in alias order.
#[derive(Debug)]
pub struct Config {
    stations: Vec<(String, Station)>,
}

impl View for Config {
    type V = Seq<(Seq<char>, StationView)>;

    closed spec fn view(&self) -> Seq<(Seq<char>, StationView)> {
        entries_view(self.stations@)
    }
}

impl Config {
    /// Entries in strict alias order.
    pub open spec fn wf(&self) -> bool {
        sorted(self@)
    }

    /// The stations by alias.
    pub open spec fn stations(&self) -> Map<Seq<char>, StationView> {
        station_map(self@)
    }

    /// A configuration without stations.
    pub fn new() -> (r: Config)
        ensures
            r.wf(),
            r@.len() == 0,
            r.stations() == Map::<Seq<char>, StationView>::empty(),
    {
        let r = Config { stations: Vec::new() };
        assert(r@ =~= Seq::<(Seq<char>, StationView)>::empty());
        assert(r.stations() =~= Map::<Seq<char>, StationView>::empty());
        r
    }

    /// The number of stations.
    pub fn len(&self) -> (r: usize)
        ensures
            r == self@.len(),
    {
        self.stations.len()
    }

    /// The entries, in alias order.
    pub fn entries(&self) -> (r: &Vec<(String, Station)>)
        ensures
            entries_view(r@) == self@,
    {
        &self.stations
    }

    /// Adds `station` under `alias`, replacing a station of that alias whole.
    pub fn insert(&mut self, alias: String, station: Station)
        requires
            old(self).wf(),
        ensures
            final(self).wf(),
            final(self).stations() == old(self).stations().insert(alias@, station@),
    {
        let ghost s = self@;
        let ghost e = (alias@, station@);
        let mut i: usize = 0;
        while i < self.stations.len() && str_lt(self.stations[i].0.as_str(), alias.as_str())
            invariant
                i <= self.stations@.len(),
                self@ == s,
                sorted(s),
                forall|j: int| 0 <= j < i ==> seq_lt(#[trigger] s[j].0, alias@),
            decreases self.stations@.len() - i,
        {
            assert(self.stations@[i as int].0@ == s[i as int].0);
            i = i + 1;
        }
        let n = self.stations.len();
        let replace = i < n && crate::cli::str_eq(self.stations[i].0.as_str(), alias.as_str());
        let skip: usize = if replace {
            i + 1
        } else {
            i
        };
        proof {
            // Every entry from `skip` on comes after `alias`.
            assert forall|j: int| skip <= j < n implies seq_lt(alias@, #[trigger] s[j].0) by {
                let k = s[i as int].0;
                if replace {
                    assert(seq_lt(s[i as int].0, s[j].0));
                } else {
                    lemma_seq_lt_total(k, alias@);
                    if i < j {
                        assert(seq_lt(s[i as int].0, s[j].0));
                        lemma_seq_lt_transitive(alias@, k, s[j].0);
                    }
                }
            }
        }
        if replace {
            self.stations.set(i, (alias, station));
        } else {
            self.stations.insert(i, (alias, station));
        }
        proof {
            let t = self@;
            let pre = s.subrange(0, i as int);
            let post = s.subrange(skip as int, n as int);
            assert(t =~= pre + seq![e] + post);
            assert(sorted(t)) by {
                assert forall|a: int, b: int| 0 <= a < b < t.len() implies seq_lt(
                    #[trigger] t[a].0,
                    #[trigger] t[b].0,
                ) by {
                    if b < i {
                        assert(t[a] == s[a] && t[b] == s[b]);
                    } else if b == i {
                        assert(t[a] == s[a]);
                    } else if a == i {
                        assert(t[b] == s[b - i - 1 + skip]);
                    } else if a < i {
                        assert(t[a] == s[a] && t[b] == s[b - i - 1 + skip]);
                    } else {
                        assert(t[a] == s[a - i - 1 + skip] && t[b] == s[b - i - 1 + skip]);
                    }
                }
            }
            assert forall|j: int| 0 <= j < post.len() implies #[trigger] post[j].0 != alias@ by {
                assert(post[j] == s[skip + j]);
                lemma_seq_lt_irreflexive(alias@);
            }
            lemma_lookup_found(post, alias@);
            assert forall|k: Seq<char>| #[trigger] lookup(t, k) == if k == alias@ {
                Some(station@)
            } else {
                lookup(s, k)
            } by {
                lemma_lookup_concat(pre + seq![e], post, k);
                lemma_lookup_concat(pre, seq![e], k);
                assert((pre + seq![e]).drop_last() =~= pre);
                if k != alias@ {
                    if replace {
                        let mid = s.subrange(0, i + 1);
                        assert(s =~= mid + post);
                        assert(mid.drop_last() =~= pre);
                        lemma_lookup_concat(mid, post, k);
                    } else {
                        assert(s =~= pre + post);
                        lemma_lookup_concat(pre, post, k);
                    }
                }
            }
            assert(station_map(t) =~= station_map(s).insert(alias@, station@));
        }
    }

    /// The station of `alias`, if any.
    pub fn get(&self, alias: &str) -> (r: Option<&Station>)
        requires
            self.wf(),
        ensures
            r matches Some(st) ==> self.stations().contains_key(alias@) && self.stations()[alias@]
                == st@,
            r is None ==> !self.stations().contains_key(alias@),
    {
        let ghost s = self@;
        let key = chars_of(alias);
        let mut i: usize = 0;
        while i < self.stations.len()
            invariant
                i <= self.stations@.len(),
                self@ == s,
                key@ == alias@,
                sorted(s),
                forall|j: int| 0 <= j < i ==> #[trigger] s[j].0 != alias@,
            decreases self.stations@.len() - i,
        {
            let k = chars_of(self.stations[i].0.as_str());
            assert(k@ == s[i as int].0);
            if crate::text::slice_eq(k.as_slice(), key.as_slice()) {
                proof {
                    lemma_sorted_lookup(s, i as int);
                }
                return Some(&self.stations[i].1);
            }
            i = i + 1;
        }
        proof {
            lemma_lookup_found(s, alias@);
        }
        None
    }
}

/// What `format!("{:?}", s)` gives for a string: the string quoted, with quotes,
/// backslashes and unprintable characters escaped.
pub uninterp spec fn str_debug(s: Seq<char>) -> Seq<char>;

/// `<str as Debug>::fmt`, through `format!`. The contract names the result (`str_debug`);
/// the escaping rules of `char::escape_debug` are not restated.
#[verifier::external_body]
fn debug_quoted(s: &str) -> (r: String)
    ensures
        r@ == str_debug(s@),
{
    format!("{:?}", s)
}

/// Why a configuration is refused, as the library models it.
pub enum ConfigFault {
    InvalidAlias(Seq<char>),
    UnknownEncoding(Seq<char>, Seq<char>),
    Url(Seq<char>, UrlError),
    ControlName(Seq<char>),
}

/// Why a configuration is refused.
#[derive(Debug, PartialEq, Eq)]
pub enum ConfigError {
    /// An alias that is empty or holds other than lowercase ASCII letters, digits, `_`, `-`.
    InvalidAlias(String),
    /// A station's `metadata_encoding` (the second text) names no encoding.
    UnknownEncoding(String, String),
    /// A station's URL is refused.
    Url(String, UrlError),
    /// A station's name holds a control character.
    ControlName(String),
}

impl View for ConfigError {
    type V = ConfigFault;

    open spec fn view(&self) -> ConfigFault {
        match self {
            ConfigError::InvalidAlias(a) => ConfigFault::InvalidAlias(a@),
            ConfigError::UnknownEncoding(a, l) => ConfigFault::UnknownEncoding(a@, l@),
            ConfigError::Url(a, e) => ConfigFault::Url(a@, *e),
            ConfigError::ControlName(a) => ConfigFault::ControlName(a@),
        }
    }
}

/// The text of a configuration error.
pub open spec fn fault_text(f: ConfigFault) -> Seq<char> {
    match f {
        ConfigFault::InvalidAlias(a) => "invalid station alias: "@ + str_debug(a)
            + "; use lowercase letters, digits, _ or -"@,
        ConfigFault::UnknownEncoding(a, l) => "station "@ + a + ": unknown metadata encoding "@
            + str_debug(l),
        ConfigFault::Url(a, e) => "station "@ + a + ": "@ + crate::web::url_error_text(e),
        ConfigFault::ControlName(a) => "station "@ + a + ": name contains control characters"@,
    }
}

impl ConfigError {
    /// The text shown to the user.
    pub fn message(&self) -> (r: String)
        ensures
            r@ == fault_text(self@),
    {
        match self {
            ConfigError::InvalidAlias(a) => String::from_str("invalid station alias: ").concat(
                debug_quoted(a.as_str()).as_str(),
            ).concat("; use lowercase letters, digits, _ or -"),
            ConfigError::UnknownEncoding(a, l) => String::from_str("station ").concat(
                a.as_str(),
            ).concat(": unknown metadata encoding ").concat(debug_quoted(l.as_str()).as_str()),
            ConfigError::Url(a, e) => String::from_str("station ").concat(a.as_str()).concat(
                ": ",
            ).concat(e.message()),
            ConfigError::ControlName(a) => String::from_str("station ").concat(a.as_str()).concat(
                ": name contains control characters",
            ),
        }
    }
}

/// A character allowed in a station alias.
pub open spec fn is_alias_char(c: char) -> bool {
    ('a' <= c && c <= 'z') || ('0' <= c && c <= '9') || c == '_' || c == '-'
}

/// A nonempty alias of lowercase ASCII letters, digits, `_` and `-`, not beginning with
/// `-` (which would read as a command-line option).
pub open spec fn valid_alias(a: Seq<char>) -> bool {
    &&& a.len() > 0
    &&& a[0] != '-'
    &&& forall|i: int| 0 <= i < a.len() ==> is_alias_char(#[trigger] a[i])
}

/// What is wrong with a station, checked in this order: the alias, the metadata
/// encoding, the URL, the name.
pub open spec fn station_fault(alias: Seq<char>, st: StationView) -> Option<ConfigFault> {
    if !valid_alias(alias) {
        Some(ConfigFault::InvalidAlias(alias))
    } else if st.metadata_encoding matches Some(l) && !encoding_label_known(l) {
        Some(ConfigFault::UnknownEncoding(alias, st.metadata_encoding->0))
    } else if validate_spec(st.url) is Err {
        Some(ConfigFault::Url(alias, validate_spec(st.url)->Err_0))
    } else if st.name matches Some(n) && has_ctrl(n) {
        Some(ConfigFault::ControlName(alias))
    } else {
        None
    }
}

fn valid_alias_exec(a: &[char]) -> (r: bool)
    ensures
        r == valid_alias(a@),
{
    if a.len() == 0 || a[0] == '-' {
        return false;
    }
    let mut i: usize = 0;
    while i < a.len()
        invariant
            i <= a@.len(),
            a@.len() > 0,
            a@[0] != '-',
            forall|j: int| 0 <= j < i ==> is_alias_char(#[trigger] a@[j]),
        decreases a@.len() - i,
    {
        let c = a[i];
        if !(('a' <= c && c <= 'z') || ('0' <= c && c <= '9') || c == '_' || c == '-') {
            return false;
        }
        i = i + 1;
    }
    true
}

fn check_station(alias: &String, st: &Station) -> (r: Option<ConfigError>)
    ensures
        r matches Some(e) ==> station_fault(alias@, st@) == Some(e@),
        r is None ==> station_fault(alias@, st@) is None,
{
    let a = chars_of(alias.as_str());
    if !valid_alias_exec(a.as_slice()) {
        return Some(ConfigError::InvalidAlias(alias.clone()));
    }
    match &st.metadata_encoding {
        Some(l) => {
            if !encoding_known(l.as_str()) {
                return Some(ConfigError::UnknownEncoding(alias.clone(), l.clone()));
            }
        },
        None => {},
    }
    match validate_url(st.url.as_str()) {
        Err(e) => {
            return Some(ConfigError::Url(alias.clone(), e));
        },
        Ok(_) => {},
    }
    match &st.name {
        Some(n) => {
            let c = chars_of(n.as_str());
            if any_control(c.as_slice()) {
                return Some(ConfigError::ControlName(alias.clone()));
            }
        },
        None => {},
    }
    None
}

/// The stations after `user` overlays `defaults`: each user station replaces the
/// station of its alias whole, and the other defaults remain.
pub open spec fn overlay(
    defaults: Map<Seq<char>, StationView>,
    user: Option<Map<Seq<char>, StationView>>,
) -> Map<Seq<char>, StationView> {
    match user {
        Some(u) => defaults.union_prefer_right(u),
        None => defaults,
    }
}

/// Whether every station of `m` passes its checks.
pub open spec fn all_valid(m: Map<Seq<char>, StationView>) -> bool {
    forall|k: Seq<char>| #[trigger] m.contains_key(k) ==> station_fault(k, m[k]) is None
}

/// Whether `f` is the fault of the first station of `m`, in alias order, that fails its
/// checks.
pub open spec fn first_fault(m: Map<Seq<char>, StationView>, f: ConfigFault) -> bool {
    exists|k: Seq<char>|
        {
            &&& #[trigger] m.contains_key(k)
            &&& station_fault(k, m[k]) == Some(f)
            &&& forall|k2: Seq<char>| #[trigger]
                m.contains_key(k2) && seq_lt(k2, k) ==> station_fault(k2, m[k2]) is None
        }
}

/// The stations of an optional configuration.
pub open spec fn opt_stations(c: Option<Config>) -> Option<Map<Seq<char>, StationView>> {
    match c {
        Some(u) => Some(u.stations()),
        None => None,
    }
}

proof fn lemma_lookup_push(s: Seq<(Seq<char>, StationView)>, e: (Seq<char>, StationView))
    ensures
        station_map(s.push(e)) == station_map(s).insert(e.0, e.1),
{
    assert forall|k: Seq<char>| #[trigger] lookup(s.push(e), k) == if k == e.0 {
        Some(e.1)
    } else {
        lookup(s, k)
    } by {
        assert(s.push(e).drop_last() =~= s);
    }
    assert(station_map(s.push(e)) =~= station_map(s).insert(e.0, e.1));
}

impl Config {
    /// Overlays `user` on `defaults` (each user station replaces the default station of
    /// its alias whole; other defaults remain), then checks every station in alias order
    /// and refuses the configuration with the first station's fault.
    pub fn merge(defaults: Config, user: Option<Config>) -> (r: Result<Config, ConfigError>)
        requires
            defaults.wf(),
            user matches Some(u) ==> u.wf(),
        ensures
            ({
                let m = overlay(defaults.stations(), opt_stations(user));
                &&& r is Ok <==> all_valid(m)
                &&& r matches Ok(c) ==> c.wf() && c.stations() == m
                &&& r matches Err(e) ==> first_fault(m, e@)
            }),
    {
        let ghost m = overlay(defaults.stations(), opt_stations(user));
        let ghost dm = defaults.stations();
        let mut config = defaults;
        match user {
            Some(u) => {
                let ghost us = u@;
                let mut rest = u.stations;
                let ghost mut i: int = 0;
                assert(us.subrange(0, 0) =~= Seq::<(Seq<char>, StationView)>::empty());
                assert(station_map(Seq::<(Seq<char>, StationView)>::empty()) =~= Map::<
                    Seq<char>,
                    StationView,
                >::empty());
                assert(dm.union_prefer_right(Map::empty()) =~= dm);
                assert(entries_view(rest@) =~= us.subrange(0, us.len() as int));
                while rest.len() > 0
                    invariant
                        0 <= i <= us.len(),
                        entries_view(rest@) == us.subrange(i, us.len() as int),
                        config.wf(),
                        config.stations() == dm.union_prefer_right(
                            station_map(us.subrange(0, i)),
                        ),
                    decreases rest@.len(),
                {
                    let ghost before = rest@;
                    let (k, v) = rest.remove(0);
                    assert(entries_view(before).len() == before.len());
                    assert(us.subrange(i, us.len() as int)[0] == us[i]);
                    assert(entries_view(before)[0] == (k@, v@));
                    assert forall|x: int| 0 <= x < rest@.len() implies #[trigger] entries_view(
                        rest@,
                    )[x] == us[i + 1 + x] by {
                        assert(rest@[x] == before[x + 1]);
                        assert(entries_view(before)[x + 1] == us.subrange(i, us.len() as int)[x
                            + 1]);
                    }
                    assert(entries_view(rest@) =~= us.subrange(i + 1, us.len() as int));
                    config.insert(k, v);
                    proof {
                        assert(us.subrange(0, i + 1) =~= us.subrange(0, i).push(us[i]));
                        lemma_lookup_push(us.subrange(0, i), us[i]);
                        assert(dm.union_prefer_right(station_map(us.subrange(0, i + 1)))
                            =~= dm.union_prefer_right(station_map(us.subrange(0, i))).insert(
                            us[i].0,
                            us[i].1,
                        ));
                        i = i + 1;
                    }
                }
                assert(us.subrange(0, i) =~= us);
            },
            None => {},
        }
        assert(config.stations() == m);
        let ghost s = config@;
        let mut j: usize = 0;
        while j < config.stations.len()
            invariant
                j <= config.stations@.len(),
                config@ == s,
                sorted(s),
                config.stations() == m,
                m == overlay(defaults.stations(), opt_stations(user)),
                forall|l: int| 0 <= l < j ==> station_fault(#[trigger] s[l].0, s[l].1) is None,
            decreases config.stations@.len() - j,
        {
            match check_station(&config.stations[j].0, &config.stations[j].1) {
                Some(e) => {
                    proof {
                        let k = s[j as int].0;
                        assert(s[j as int] == (config.stations@[j as int].0@, config.stations@[j as int].1@));
                        lemma_sorted_lookup(s, j as int);
                        assert(m.contains_key(k) && m[k] == s[j as int].1);
                        assert(station_fault(k, m[k]) == Some(e@));
                        assert forall|k2: Seq<char>|
                            #[trigger] m.contains_key(k2) && seq_lt(k2, k) implies station_fault(
                            k2,
                            m[k2],
                        ) is None by {
                            assert(lookup(s, k2) == Some(m[k2]));
                            lemma_lookup_found(s, k2);
                            let l = choose|l: int| 0 <= l < s.len() && #[trigger] s[l] == (k2, m[k2]);
                            if l < j {
                                assert(station_fault(s[l].0, s[l].1) is None);
                            } else if l == j {
                                lemma_seq_lt_irreflexive(k);
                            } else {
                                assert(seq_lt(s[j as int].0, s[l].0));
                                lemma_seq_lt_asymmetric(k, k2);
                            }
                        }
                        assert(first_fault(m, e@));
                        assert(!all_valid(m)) by {
                            assert(m.contains_key(k));
                        }
                    }
                    return Err(e);
                },
                None => {},
            }
            j = j + 1;
        }
        proof {
            assert forall|k: Seq<char>| #[trigger] m.contains_key(k) implies station_fault(k, m[k]) is None by {
                assert(lookup(s, k) == Some(m[k]));
                lemma_lookup_found(s, k);
                let l = choose|l: int| 0 <= l < s.len() && #[trigger] s[l] == (k, m[k]);
                assert(station_fault(s[l].0, s[l].1) is None);
            }
        }
        Ok(config)
    }
}

/// A user station replaces the station of its alias whole (a name left out is not kept
/// from the built-in station), and every other built-in station remains.
pub proof fn lemma_overlay_replaces_whole_stations(
    defaults: Map<Seq<char>, StationView>,
    user: Map<Seq<char>, StationView>,
)
    ensures
        forall|k: Seq<char>| #[trigger]
            overlay(defaults, Some(user)).contains_key(k) <==> defaults.contains_key(k)
                || user.contains_key(k),
        forall|k: Seq<char>| #[trigger]
            user.contains_key(k) ==> overlay(defaults, Some(user))[k] == user[k],
        forall|k: Seq<char>|
            #[trigger] defaults.contains_key(k) && !user.contains_key(k) ==> overlay(
                defaults,
                Some(user),
            )[k] == defaults[k],
{
}

/// The alias of the built-in station.
pub open spec fn builtin_alias() -> Seq<char> {
    "kusc"@
}

/// The built-in station.
pub open spec fn builtin_station() -> StationView {
    StationView {
        url: "https://96.aac.pls.kusc.live"@,
        name: Some("Classical California KUSC"@),
        metadata_encoding: None,
    }
}

/// The built-in stations by alias.
pub open spec fn builtin_stations() -> Map<Seq<char>, StationView> {
    Map::<Seq<char>, StationView>::empty().insert(builtin_alias(), builtin_station())
}

/// What a configuration resolves `input` to: the URL of the station of that alias, or
/// else `input` itself.
pub open spec fn resolve_target(stations: Map<Seq<char>, StationView>, input: Seq<char>) -> Seq<char> {
    if stations.contains_key(input) {
        stations[input].url
    } else {
        input
    }
}

impl Config {
    /// The built-in stations, unchecked.
    pub fn builtin() -> (r: Config)
        ensures
            r.wf(),
            r.stations() == builtin_stations(),
    {
        let mut c = Config::new();
        c.insert(
            String::from_str("kusc"),
            Station {
                url: String::from_str("https://96.aac.pls.kusc.live"),
                name: Some(String::from_str("Classical California KUSC")),
                metadata_encoding: None,
            },
        );
        c
    }

    /// The built-in stations, checked as any configuration is.
    pub fn defaults() -> (r: Result<Config, ConfigError>)
        ensures
            r is Ok <==> station_fault(builtin_alias(), builtin_station()) is None,
            r matches Ok(c) ==> c.wf() && c.stations() == builtin_stations(),
            r matches Err(e) ==> station_fault(builtin_alias(), builtin_station()) == Some(e@),
    {
        let r = Config::merge(Config::builtin(), None);
        proof {
            let m = builtin_stations();
            assert(overlay(m, None) == m);
            assert(m.contains_key(builtin_alias()));
            if r is Err {
                let e = r->Err_0;
                let k = choose|k: Seq<char>|
                    {
                        &&& #[trigger] m.contains_key(k)
                        &&& station_fault(k, m[k]) == Some(e@)
                        &&& forall|k2: Seq<char>| #[trigger]
                            m.contains_key(k2) && seq_lt(k2, k) ==> station_fault(k2, m[k2]) is None
                    };
                assert(k == builtin_alias());
            }
        }
        r
    }

    /// The stream URL for `input`: the URL of the station of that alias, or else `input`
    /// itself, which must then be an HTTP(S) URL with a host.
    pub fn resolve(&self, input: &str) -> (r: Result<String, UrlError>)
        requires
            self.wf(),
        ensures
            r matches Ok(s) ==> s@ == resolve_target(self.stations(), input@) && validate_spec(
                resolve_target(self.stations(), input@),
            ) is Ok,
            r matches Err(e) ==> validate_spec(resolve_target(self.stations(), input@)) == Err::<
                crate::web::UrlParts,
                UrlError,
            >(e),
    {
        let value: &str = match self.get(input) {
            Some(st) => st.url.as_str(),
            None => input,
        };
        match validate_url(value) {
            Ok(_) => Ok(value.to_string()),
            Err(e) => Err(e),
        }
    }
}

/// Which configuration file to read, and whether it must exist: the one named on the
/// command line, else the one in `RXER_CONFIG` (both required), else the platform
/// default (which may be missing); `None` without any of them.
pub open spec fn config_source_spec(
    explicit: Option<Seq<char>>,
    rxer_config: Option<Seq<char>>,
    platform_default: Option<Seq<char>>,
) -> Option<(Seq<char>, bool)> {
    match explicit {
        Some(p) => Some((p, true)),
        None => match rxer_config {
            Some(p) => Some((p, true)),
            None => match platform_default {
                Some(p) => Some((p, false)),
                None => None,
            },
        },
    }
}

/// Chooses the configuration file to read, and whether it must exist.
pub fn config_source(
    explicit: Option<String>,
    rxer_config: Option<String>,
    platform_default: Option<String>,
) -> (r: Option<(String, bool)>)
    ensures
        match r {
            Some((p, required)) => config_source_spec(
                opt_chars(explicit),
                opt_chars(rxer_config),
                opt_chars(platform_default),
            ) == Some((p@, required)),
            None => config_source_spec(
                opt_chars(explicit),
                opt_chars(rxer_config),
                opt_chars(platform_default),
            ) is None,
        },
{
    match explicit {
        Some(p) => Some((p, true)),
        None => match rxer_config {
            Some(p) => Some((p, true)),
            None => match platform_default {
                Some(p) => Some((p, false)),
                None => None,
            },
        },
    }
}

/// Whether failing to read the configuration file is an error: always for a file that
/// must exist, and for a platform default only when it exists but cannot be read.
pub fn read_failure_is_fatal(required: bool, not_found: bool) -> (r: bool)
    ensures
        r == (required || !not_found),
{
    required || !not_found
}

/// The directory above `rxer/config.toml` on Linux and other Unix systems: an absolute
/// `XDG_CONFIG_HOME`, else `$HOME/.config`.
pub open spec fn unix_config_base_spec(xdg: Option<Seq<char>>, home: Option<Seq<char>>) -> Option<Seq<char>> {
    if xdg is Some && path_absolute(xdg->0) {
        xdg
    } else {
        match home {
            Some(h) => Some(path_join(h, ".config"@)),
            None => None,
        }
    }
}

/// Finds the directory above `rxer/config.toml` on Linux and other Unix systems.
pub fn unix_config_base(xdg_config_home: Option<String>, home: Option<String>) -> (r: Option<String>)
    ensures
        opt_chars(r) == unix_config_base_spec(opt_chars(xdg_config_home), opt_chars(home)),
{
    match xdg_config_home {
        Some(x) => {
            if is_absolute_path(x.as_str()) {
                return Some(x);
            }
        },
        None => {},
    }
    match home {
        Some(h) => Some(join_path(h.as_str(), ".config")),
        None => None,
    }
}

/// The directory above `rxer/config.toml` on macOS: `$HOME/Library/Application Support`.
pub fn macos_config_base(home: Option<String>) -> (r: Option<String>)
    ensures
        opt_chars(r) == match opt_chars(home) {
            Some(h) => Some(path_join(h, "Library/Application Support"@)),
            None => None,
        },
{
    match home {
        Some(h) => Some(join_path(h.as_str(), "Library/Application Support")),
        None => None,
    }
}

/// The platform default configuration file: `rxer/config.toml` under the platform's
/// configuration directory, when there is one.
pub fn default_config_file(base: Option<String>) -> (r: Option<String>)
    ensures
        opt_chars(r) == match opt_chars(base) {
            Some(b) => Some(path_join(b, "rxer/config.toml"@)),
            None => None,
        },
{
    match base {
        Some(b) => Some(join_path(b.as_str(), "rxer/config.toml")),
        None => None,
    }
}

} // verus!
