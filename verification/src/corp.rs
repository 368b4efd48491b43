//! Logic of the corporate / mesh dashboard: nickname handling, chat
//! messages, the room and its upload limit, and merging of messages that
//! arrive from other nodes.

use vstd::prelude::*;
use vstd::string::StringExecFns;
use vstd::utf8::encode_utf8;

use crate::store::KeyedStore;
use crate::text::{chars_of, decimal, push_char, push_decimal, trim, trim_spec};

verus! {

/// A chat message as stored and served by the dashboard.
pub struct ChatMessage {
    pub sender: String,
    pub text: String,
    pub timestamp: u64,
    pub is_e2e_encrypted: bool,
    pub color: String,
}

/// The body of a chat request.
pub struct ChatPayload {
    pub sender: String,
    pub text: String,
}

/// The room this node belongs to.
pub struct MeshRoom {
    pub room_id: String,
    pub room_code: String,
    pub invite_link: String,
    pub is_host: bool,
    pub max_file_size_mb: u32,
}

/// The body of a join request.
pub struct JoinRoomQuery {
    pub code: Option<String>,
}

/// The body of a request that changes the upload limit.
pub struct LimitPayload {
    pub limit_mb: u32,
}

// ---------------------------------------------------------------------
// Nicknames
// ---------------------------------------------------------------------

/// Latin letters that look like Cyrillic ones are replaced by the
/// Cyrillic letter (a, o, e, p, c, x in either case); every other
/// character is kept.
pub open spec fn sanitize_char(c: char) -> char {
    if c == 'a' || c == 'A' {
        '\u{0430}'
    } else if c == 'o' || c == 'O' {
        '\u{043E}'
    } else if c == 'e' || c == 'E' {
        '\u{0435}'
    } else if c == 'p' || c == 'P' {
        '\u{0440}'
    } else if c == 'c' || c == 'C' {
        '\u{0441}'
    } else if c == 'x' || c == 'X' {
        '\u{0445}'
    } else {
        c
    }
}

/// The normalized form of a nickname, used to detect look-alike names.
pub open spec fn sanitize_spec(s: Seq<char>) -> Seq<char> {
    s.map_values(|c: char| sanitize_char(c))
}

fn sanitize_one(c: char) -> (r: char)
    ensures
        r == sanitize_char(c),
{
    if c == 'a' || c == 'A' {
        '\u{0430}'
    } else if c == 'o' || c == 'O' {
        '\u{043E}'
    } else if c == 'e' || c == 'E' {
        '\u{0435}'
    } else if c == 'p' || c == 'P' {
        '\u{0440}'
    } else if c == 'c' || c == 'C' {
        '\u{0441}'
    } else if c == 'x' || c == 'X' {
        '\u{0445}'
    } else {
        c
    }
}

/// Maps every character of `name` through `sanitize_char`.
pub fn sanitize_nickname(name: &str) -> (res: String)
    ensures
        res@ == sanitize_spec(name@),
{
    let chars = chars_of(name);
    let mut res = String::new();
    let n = chars.len();
    let mut i: usize = 0;
    while i < n
        invariant
            n == chars@.len(),
            chars@ == name@,
            i <= n,
            res@ == sanitize_spec(name@.take(i as int)),
        decreases n - i,
    {
        push_char(&mut res, sanitize_one(chars[i]));
        assert(sanitize_spec(name@.take(i + 1)) =~= sanitize_spec(name@.take(i as int)).push(
            sanitize_char(name@[i as int]),
        ));
        i = i + 1;
    }
    assert(name@.take(n as int) =~= name@);
    res
}

/// Normalizing a nickname twice gives the same as normalizing it once.
pub proof fn law_sanitize_idempotent(s: Seq<char>)
    ensures
        sanitize_spec(sanitize_spec(s)) == sanitize_spec(s),
{
    assert(sanitize_spec(sanitize_spec(s)) =~= sanitize_spec(s));
}

/// `cyr` is the Cyrillic letter that the Latin letter `lat` looks like:
/// а for a/A, о for o/O, е for e/E, р for p/P, с for c/C, х for x/X.
pub open spec fn cyrillic_lookalike(lat: char, cyr: char) -> bool {
    ||| (lat == 'a' || lat == 'A') && cyr == '\u{0430}'
    ||| (lat == 'o' || lat == 'O') && cyr == '\u{043E}'
    ||| (lat == 'e' || lat == 'E') && cyr == '\u{0435}'
    ||| (lat == 'p' || lat == 'P') && cyr == '\u{0440}'
    ||| (lat == 'c' || lat == 'C') && cyr == '\u{0441}'
    ||| (lat == 'x' || lat == 'X') && cyr == '\u{0445}'
}

/// Each of the Latin letters a, o, e, p, c, x, in either case, is
/// normalized to the Cyrillic letter it looks like, and that Cyrillic
/// letter is left as it is.
pub proof fn law_lookalike_letters_normalize(lat: char, cyr: char)
    requires
        cyrillic_lookalike(lat, cyr),
    ensures
        sanitize_char(lat) == cyr,
        sanitize_char(cyr) == cyr,
{
}

/// Every character that is not one of the Latin letters a, o, e, p, c, x
/// (in either case) is kept as it is, and normalizing never changes the
/// length of a name.
pub proof fn law_other_characters_kept(c: char, s: Seq<char>)
    ensures
        (forall|d: char| !#[trigger] cyrillic_lookalike(c, d)) ==> sanitize_char(c) == c,
        sanitize_spec(s).len() == s.len(),
{
    if forall|d: char| !#[trigger] cyrillic_lookalike(c, d) {
        assert(!cyrillic_lookalike(c, '\u{0430}'));
        assert(!cyrillic_lookalike(c, '\u{043E}'));
        assert(!cyrillic_lookalike(c, '\u{0435}'));
        assert(!cyrillic_lookalike(c, '\u{0440}'));
        assert(!cyrillic_lookalike(c, '\u{0441}'));
        assert(!cyrillic_lookalike(c, '\u{0445}'));
    }
}

/// Two names of the same length that differ only where one has a Latin
/// letter and the other the Cyrillic letter it looks like have the same
/// normalized form, so one of them is taken for the other.
pub proof fn law_lookalike_names_same_form(s1: Seq<char>, s2: Seq<char>)
    requires
        s1.len() == s2.len(),
        forall|i: int|
            0 <= i < s1.len() ==> #[trigger] s1[i] == s2[i] || cyrillic_lookalike(s1[i], s2[i])
                || cyrillic_lookalike(s2[i], s1[i]),
    ensures
        sanitize_spec(s1) == sanitize_spec(s2),
{
    assert forall|i: int| 0 <= i < s1.len() implies sanitize_spec(s1)[i] == sanitize_spec(s2)[i] by {
        assert(s1[i] == s2[i] || cyrillic_lookalike(s1[i], s2[i]) || cyrillic_lookalike(
            s2[i],
            s1[i],
        ));
        if cyrillic_lookalike(s1[i], s2[i]) {
            law_lookalike_letters_normalize(s1[i], s2[i]);
        } else if cyrillic_lookalike(s2[i], s1[i]) {
            law_lookalike_letters_normalize(s2[i], s1[i]);
        }
    }
    assert(sanitize_spec(s1) =~= sanitize_spec(s2));
}

// ---------------------------------------------------------------------
// Colors
// ---------------------------------------------------------------------

/// The sum of a byte sequence.
pub open spec fn byte_sum(b: Seq<u8>) -> nat
    decreases b.len(),
{
    if b.len() == 0 {
        0
    } else {
        byte_sum(b.drop_last()) + b.last() as nat
    }
}

/// The eight colors that senders are shown in.
pub open spec fn palette(i: nat) -> Seq<char> {
    if i == 0 {
        "#00f2fe"@
    } else if i == 1 {
        "#2ed573"@
    } else if i == 2 {
        "#ff4757"@
    } else if i == 3 {
        "#ffa502"@
    } else if i == 4 {
        "#ff6b81"@
    } else if i == 5 {
        "#70a1ff"@
    } else if i == 6 {
        "#5352ed"@
    } else {
        "#eccc68"@
    }
}

/// The color of a nickname: the palette entry at the sum of its UTF-8
/// bytes, modulo the palette size.
pub open spec fn color_spec(name: Seq<char>) -> Seq<char> {
    palette(byte_sum(encode_utf8(name)) % 8)
}

fn palette_entry(i: usize) -> (res: String)
    requires
        i < 8,
    ensures
        res@ == palette(i as nat),
{
    if i == 0 {
        "#00f2fe".to_owned()
    } else if i == 1 {
        "#2ed573".to_owned()
    } else if i == 2 {
        "#ff4757".to_owned()
    } else if i == 3 {
        "#ffa502".to_owned()
    } else if i == 4 {
        "#ff6b81".to_owned()
    } else if i == 5 {
        "#70a1ff".to_owned()
    } else if i == 6 {
        "#5352ed".to_owned()
    } else {
        "#eccc68".to_owned()
    }
}

/// The display color of a nickname.
pub fn generate_color(name: &str) -> (res: String)
    ensures
        res@ == color_spec(name@),
{
    let bytes = name.as_bytes();
    let n = bytes.len();
    let mut acc: usize = 0;
    let mut i: usize = 0;
    while i < n
        invariant
            n == bytes@.len(),
            bytes@ == encode_utf8(name@),
            i <= n,
            acc < 8,
            acc == byte_sum(bytes@.take(i as int)) % 8,
        decreases n - i,
    {
        let b = bytes[i];
        proof {
            let t = bytes@.take(i + 1);
            assert(t.drop_last() =~= bytes@.take(i as int));
            vstd::arithmetic::div_mod::lemma_add_mod_noop_right(
                b as int,
                byte_sum(bytes@.take(i as int)) as int,
                8,
            );
        }
        acc = (acc + b as usize) % 8;
        i = i + 1;
    }
    assert(bytes@.take(n as int) =~= bytes@);
    palette_entry(acc)
}

/// The color of a name is the entry, at the sum of its UTF-8 bytes
/// modulo 8, of the fixed list #00f2fe, #2ed573, #ff4757, #ffa502,
/// #ff6b81, #70a1ff, #5352ed, #eccc68.
pub proof fn law_color_from_fixed_list(name: Seq<char>)
    ensures
        color_spec(name) == seq![
            "#00f2fe"@,
            "#2ed573"@,
            "#ff4757"@,
            "#ffa502"@,
            "#ff6b81"@,
            "#70a1ff"@,
            "#5352ed"@,
            "#eccc68"@,
        ][(byte_sum(encode_utf8(name)) % 8) as int],
{
}

// ---------------------------------------------------------------------
// Registry of nicknames in use
// ---------------------------------------------------------------------

/// The nicknames in use, keyed by their normalized form, each with the
/// spelling under which it was first registered.
pub struct NicknameRegistry {
    names: KeyedStore<String>,
}

impl View for NicknameRegistry {
    type V = Map<Seq<char>, Seq<char>>;

    closed spec fn view(&self) -> Map<Seq<char>, Seq<char>> {
        self.names@.map_values(|s: String| s@)
    }
}

impl NicknameRegistry {
    /// An empty registry.
    pub fn new() -> (r: NicknameRegistry)
        ensures
            r@ == Map::<Seq<char>, Seq<char>>::empty(),
    {
        let r = NicknameRegistry { names: KeyedStore::new() };
        assert(r@ =~= Map::<Seq<char>, Seq<char>>::empty());
        r
    }

    /// The nickname, as typed, registered under a normalized name.
    pub fn get(&self, key: &String) -> (r: Option<&String>)
        ensures
            match r {
                Some(v) => self@.contains_key(key@) && self@[key@] == v@,
                None => !self@.contains_key(key@),
            },
    {
        self.names.get(key)
    }

    /// Registers `spelling` under the normalized name `key`.
    pub fn insert(&mut self, key: String, spelling: String)
        ensures
            final(self)@ == old(self)@.insert(key@, spelling@),
    {
        let ghost k = key@;
        let ghost v = spelling@;
        self.names.insert(key, spelling);
        assert(self@ =~= old(self)@.insert(k, v));
    }
}

// ---------------------------------------------------------------------
// Sending a chat message
// ---------------------------------------------------------------------

/// Why a chat message was refused.
#[derive(Debug, PartialEq, Eq, Structural)]
pub enum ChatRejection {
    /// The sender name is empty once white space is trimmed.
    EmptyName,
    /// The sender name looks like, but is not, a name already in use.
    LookalikeName,
}

impl ChatRejection {
    /// The text sent back to the client.
    pub fn message(&self) -> (m: &'static str)
        ensures
            *self == ChatRejection::EmptyName ==> m@ == "\u{0418}\u{043C}\u{044F} \u{043D}\u{0435} \u{043C}\u{043E}\u{0436}\u{0435}\u{0442} \u{0431}\u{044B}\u{0442}\u{044C} \u{043F}\u{0443}\u{0441}\u{0442}\u{044B}\u{043C}"@,
            *self == ChatRejection::LookalikeName ==> m@ == "\u{042D}\u{0442}\u{043E}\u{0442} \u{043D}\u{0438}\u{043A} \u{0432}\u{0438}\u{0437}\u{0443}\u{0430}\u{043B}\u{044C}\u{043D}\u{043E} \u{043F}\u{043E}\u{0445}\u{043E}\u{0436} \u{043D}\u{0430} \u{0443}\u{0436}\u{0435} \u{0441}\u{0443}\u{0449}\u{0435}\u{0441}\u{0442}\u{0432}\u{0443}\u{044E}\u{0449}\u{0438}\u{0439} \u{0432} \u{0441}\u{0435}\u{0442}\u{0438}! \u{0412}\u{044B}\u{0431}\u{0435}\u{0440}\u{0438}\u{0442}\u{0435} \u{0434}\u{0440}\u{0443}\u{0433}\u{043E}\u{0439}."@,
    {
        match self {
            ChatRejection::EmptyName => "\u{0418}\u{043C}\u{044F} \u{043D}\u{0435} \u{043C}\u{043E}\u{0436}\u{0435}\u{0442} \u{0431}\u{044B}\u{0442}\u{044C} \u{043F}\u{0443}\u{0441}\u{0442}\u{044B}\u{043C}",
            ChatRejection::LookalikeName => "\u{042D}\u{0442}\u{043E}\u{0442} \u{043D}\u{0438}\u{043A} \u{0432}\u{0438}\u{0437}\u{0443}\u{0430}\u{043B}\u{044C}\u{043D}\u{043E} \u{043F}\u{043E}\u{0445}\u{043E}\u{0436} \u{043D}\u{0430} \u{0443}\u{0436}\u{0435} \u{0441}\u{0443}\u{0449}\u{0435}\u{0441}\u{0442}\u{0432}\u{0443}\u{044E}\u{0449}\u{0438}\u{0439} \u{0432} \u{0441}\u{0435}\u{0442}\u{0438}! \u{0412}\u{044B}\u{0431}\u{0435}\u{0440}\u{0438}\u{0442}\u{0435} \u{0434}\u{0440}\u{0443}\u{0433}\u{043E}\u{0439}.",
        }
    }
}

/// Whether the registry accepts `clean` as a sender name: it is not
/// empty, and no different name with the same normalized form is in use.
pub open spec fn name_accepted(users: Map<Seq<char>, Seq<char>>, clean: Seq<char>) -> bool {
    let norm = sanitize_spec(clean);
    clean.len() > 0 && (!users.contains_key(norm) || users[norm] == clean)
}

/// The registry after a message whose trimmed sender name is `clean`:
/// an accepted name is registered (a no-op when already there), and a
/// refused one changes nothing.
pub open spec fn registry_after(users: Map<Seq<char>, Seq<char>>, clean: Seq<char>) -> Map<Seq<char>, Seq<char>> {
    if name_accepted(users, clean) {
        users.insert(sanitize_spec(clean), clean)
    } else {
        users
    }
}

/// `after` still holds every name of `before`, with the same spelling.
pub open spec fn keeps_names(before: Map<Seq<char>, Seq<char>>, after: Map<Seq<char>, Seq<char>>) -> bool {
    forall|k: Seq<char>| before.contains_key(k) ==> #[trigger] after.contains_key(k) && after[k] == before[k]
}

/// The registry after messages from each of `senders` in turn (the names
/// as sent, before trimming).
pub open spec fn registry_after_all(users: Map<Seq<char>, Seq<char>>, senders: Seq<Seq<char>>) -> Map<Seq<char>, Seq<char>>
    decreases senders.len(),
{
    if senders.len() == 0 {
        users
    } else {
        registry_after(registry_after_all(users, senders.drop_last()), trim_spec(senders.last()))
    }
}

/// Checks the sender of a chat message against the nicknames in use and,
/// when it is accepted, registers it and builds the message to store:
/// the trimmed sender name, the text, the time `now_ms`, end-to-end
/// encryption set, and the sender's color.
pub fn prepare_chat(users: &mut NicknameRegistry, sender: &str, text: String, now_ms: u64) -> (res:
    Result<ChatMessage, ChatRejection>)
    ensures
        ({
            let clean = trim_spec(sender@);
            let norm = sanitize_spec(clean);
            &&& res is Ok <==> name_accepted(old(users)@, clean)
            &&& (res is Err && clean.len() == 0) ==> res == Err::<ChatMessage, ChatRejection>(
                ChatRejection::EmptyName,
            )
            &&& (res is Err && clean.len() > 0) ==> res == Err::<ChatMessage, ChatRejection>(
                ChatRejection::LookalikeName,
            )
            &&& res is Err ==> final(users)@ == old(users)@
            &&& res is Ok ==> final(users)@ == old(users)@.insert(norm, clean)
            &&& final(users)@ == registry_after(old(users)@, clean)
            &&& keeps_names(old(users)@, final(users)@)
            &&& res matches Ok(m) ==> {
                &&& m.sender@ == clean
                &&& m.text == text
                &&& m.timestamp == now_ms
                &&& m.is_e2e_encrypted
                &&& m.color@ == color_spec(clean)
            }
        }),
{
    let clean_name = trim(sender);
    if clean_name.as_str().is_empty() {
        return Err(ChatRejection::EmptyName);
    }
    let normalized = sanitize_nickname(clean_name.as_str());
    let existing = users.get(&normalized);
    match existing {
        Some(registered) => {
            if *registered != clean_name {
                return Err(ChatRejection::LookalikeName);
            }
            assert(users@.insert(normalized@, clean_name@) =~= users@);
        },
        None => {
            users.insert(normalized, clean_name.clone());
        },
    }
    let color = generate_color(clean_name.as_str());
    Ok(
        ChatMessage {
            sender: clean_name,
            text,
            timestamp: now_ms,
            is_e2e_encrypted: true,
            color,
        },
    )
}

/// Once a sender name is accepted, it stays accepted: sending again under
/// the same name succeeds and leaves the registry as it is.
pub proof fn law_accepted_name_stays_accepted(users: Map<Seq<char>, Seq<char>>, clean: Seq<char>)
    requires
        name_accepted(users, clean),
    ensures
        ({
            let after = users.insert(sanitize_spec(clean), clean);
            &&& name_accepted(after, clean)
            &&& after.insert(sanitize_spec(clean), clean) == after
        }),
{
    let after = users.insert(sanitize_spec(clean), clean);
    assert(after.insert(sanitize_spec(clean), clean) =~= after);
}

/// After a name is accepted, any different name with the same normalized
/// form (a look-alike) is refused.
pub proof fn law_lookalike_refused(users: Map<Seq<char>, Seq<char>>, first: Seq<char>, other: Seq<char>)
    requires
        name_accepted(users, first),
        sanitize_spec(other) == sanitize_spec(first),
        other != first,
    ensures
        !name_accepted(users.insert(sanitize_spec(first), first), other),
{
}

/// Sending a message never drops a registered name nor changes its
/// spelling.
pub proof fn law_registry_keeps_names(users: Map<Seq<char>, Seq<char>>, clean: Seq<char>)
    ensures
        keeps_names(users, registry_after(users, clean)),
{
}

/// Whatever messages are sent, every registered name stays registered
/// with its spelling.
pub proof fn law_registry_keeps_names_over_calls(users: Map<Seq<char>, Seq<char>>, senders: Seq<Seq<char>>)
    ensures
        keeps_names(users, registry_after_all(users, senders)),
    decreases senders.len(),
{
    if senders.len() > 0 {
        law_registry_keeps_names_over_calls(users, senders.drop_last());
        let mid = registry_after_all(users, senders.drop_last());
        law_registry_keeps_names(mid, trim_spec(senders.last()));
    }
}

/// Once a name has posted, no different name that looks alike can post,
/// whatever messages are sent in between.
pub proof fn law_lookalike_refused_after_any_calls(
    users: Map<Seq<char>, Seq<char>>,
    first: Seq<char>,
    senders: Seq<Seq<char>>,
    other: Seq<char>,
)
    requires
        name_accepted(users, first),
        sanitize_spec(other) == sanitize_spec(first),
        other != first,
    ensures
        !name_accepted(registry_after_all(registry_after(users, first), senders), other),
{
    let start = registry_after(users, first);
    law_registry_keeps_names_over_calls(start, senders);
    let end = registry_after_all(start, senders);
    assert(start.contains_key(sanitize_spec(first)));
    assert(end.contains_key(sanitize_spec(first)));
}

// ---------------------------------------------------------------------
// The room
// ---------------------------------------------------------------------

/// Title of the dashboard page for the mesh or the corporate mode.
pub fn dashboard_title(is_mesh: bool) -> (title: &'static str)
    ensures
        is_mesh ==> title@ == "APUS Mesh Network (Decentralized & E2E)"@,
        !is_mesh ==> title@ == "APUS Corp Enterprise Dashboard (B2B/LAN)"@,
{
    if is_mesh {
        "APUS Mesh Network (Decentralized & E2E)"
    } else {
        "APUS Corp Enterprise Dashboard (B2B/LAN)"
    }
}

/// The `Content-Disposition` header value for downloading a file.
pub fn content_disposition(file_name: &str) -> (header: String)
    ensures
        header@ == "attachment; filename=\""@ + file_name@ + "\""@,
{
    let mut header = "attachment; filename=\"".to_owned();
    header.append(file_name);
    header.append("\"");
    header
}

/// The identifier of a file uploaded at `now_secs`: "file-" and the time.
pub fn upload_file_id(now_secs: u64) -> (id: String)
    ensures
        id@ == "file-"@ + decimal(now_secs as nat),
{
    let mut id = "file-".to_owned();
    push_decimal(&mut id, now_secs as u128);
    id
}

/// An upload of `len` bytes exceeds a limit of `max_file_size_mb`
/// megabytes (of 1024 * 1024 bytes); a limit of 0 means no limit.
pub fn upload_exceeds_limit(max_file_size_mb: u32, len: u64) -> (refused: bool)
    ensures
        refused == (max_file_size_mb > 0 && len > max_file_size_mb as int * 1048576),
{
    let max = (max_file_size_mb as u64) * 1048576;
    max > 0 && len > max
}

impl MeshRoom {
    /// The room a dashboard starts in: `global-mesh-01` with code
    /// `APUS-8839-X`, hosted here, with a 32768 MB upload limit.
    pub fn global_default() -> (room: MeshRoom)
        ensures
            room.room_id@ == "global-mesh-01"@,
            room.room_code@ == "APUS-8839-X"@,
            room.invite_link@ == "http://localhost:9090/?room=APUS-8839-X"@,
            room.is_host,
            room.max_file_size_mb == 32768,
    {
        MeshRoom {
            room_id: "global-mesh-01".to_owned(),
            room_code: "APUS-8839-X".to_owned(),
            invite_link: "http://localhost:9090/?room=APUS-8839-X".to_owned(),
            is_host: true,
            max_file_size_mb: 32768,
        }
    }

    /// Joins the room with the given code: this node is no longer host.
    pub fn join_with_code(&mut self, code: String)
        ensures
            final(self).room_code == code,
            !final(self).is_host,
            final(self).room_id == old(self).room_id,
            final(self).invite_link == old(self).invite_link,
            final(self).max_file_size_mb == old(self).max_file_size_mb,
    {
        self.room_code = code;
        self.is_host = false;
    }

    /// Sets the upload limit of the room, in megabytes (0 means no limit).
    pub fn set_limit(&mut self, limit_mb: u32)
        ensures
            final(self).max_file_size_mb == limit_mb,
            final(self).room_id == old(self).room_id,
            final(self).room_code == old(self).room_code,
            final(self).invite_link == old(self).invite_link,
            final(self).is_host == old(self).is_host,
    {
        self.max_file_size_mb = limit_mb;
    }

    /// The upload limit in bytes (megabytes of 1024 * 1024 bytes).
    pub fn max_upload_bytes(&self) -> (b: u64)
        ensures
            b == self.max_file_size_mb as int * 1048576,
    {
        (self.max_file_size_mb as u64) * 1048576
    }

    /// An upload of `len` bytes is refused when the room has a limit and
    /// the upload is larger than it.
    pub fn upload_too_large(&self, len: u64) -> (refused: bool)
        ensures
            refused == (self.max_file_size_mb > 0 && len > self.max_file_size_mb as int * 1048576),
    {
        upload_exceeds_limit(self.max_file_size_mb, len)
    }
}

// ---------------------------------------------------------------------
// Merging messages received from other nodes
// ---------------------------------------------------------------------

/// `local` already holds a message with the same timestamp and sender
/// as `m`.
pub open spec fn already_has(local: Seq<ChatMessage>, m: ChatMessage) -> bool {
    exists|i: int|
        0 <= i < local.len() && (#[trigger] local[i]).timestamp == m.timestamp && local[i].sender@
            == m.sender@
}

/// One step of merging: `m` is appended, and becomes the newest synced
/// timestamp, when it is newer than `last` and not yet present.
pub open spec fn merge_step(local: Seq<ChatMessage>, last: u64, m: ChatMessage) -> (Seq<ChatMessage>, u64) {
    if m.timestamp > last && !already_has(local, m) {
        (local.push(m), m.timestamp)
    } else {
        (local, last)
    }
}

/// The local messages and newest synced timestamp after merging the
/// remote messages one by one, in their order.
pub open spec fn merge_spec(local: Seq<ChatMessage>, last: u64, remote: Seq<ChatMessage>) -> (Seq<ChatMessage>, u64)
    decreases remote.len(),
{
    if remote.len() == 0 {
        (local, last)
    } else {
        let prev = merge_spec(local, last, remote.drop_last());
        merge_step(prev.0, prev.1, remote.last())
    }
}

fn contains_message(local: &Vec<ChatMessage>, timestamp: u64, sender: &String) -> (found: bool)
    ensures
        found == exists|i: int|
            0 <= i < local@.len() && (#[trigger] local@[i]).timestamp == timestamp
                && local@[i].sender@ == sender@,
{
    let n = local.len();
    let mut i: usize = 0;
    while i < n
        invariant
            n == local@.len(),
            i <= n,
            forall|j: int|
                0 <= j < i ==> !((#[trigger] local@[j]).timestamp == timestamp && local@[j].sender@
                    == sender@),
        decreases n - i,
    {
        if local[i].timestamp == timestamp && local[i].sender == *sender {
            return true;
        }
        i = i + 1;
    }
    false
}

/// Merges messages fetched from the shared hub into the local chat: each
/// remote message, in order, is appended when it is newer than the newest
/// synced timestamp and no local message has the same timestamp and
/// sender; the newest synced timestamp then moves to it.
pub fn merge_remote_messages(local: &mut Vec<ChatMessage>, remote: Vec<ChatMessage>, last_sync_ts: &mut u64)
    ensures
        (final(local)@, *final(last_sync_ts)) == merge_spec(old(local)@, *old(last_sync_ts), remote@),
{
    let ghost remote0 = remote@;
    let ghost local0 = local@;
    let ghost last0 = *last_sync_ts;
    let n = remote.len();
    let mut rest = remote;
    let mut i: usize = 0;
    while i < n
        invariant
            n == remote0.len(),
            i <= n,
            rest@ == remote0.subrange(i as int, n as int),
            (local@, *last_sync_ts) == merge_spec(local0, last0, remote0.take(i as int)),
        decreases n - i,
    {
        let msg = rest.remove(0);
        assert(msg == remote0[i as int]);
        assert(remote0.take(i + 1).drop_last() =~= remote0.take(i as int));
        if msg.timestamp > *last_sync_ts && !contains_message(local, msg.timestamp, &msg.sender) {
            let ts = msg.timestamp;
            local.push(msg);
            *last_sync_ts = ts;
        }
        i = i + 1;
    }
    assert(remote0.take(n as int) =~= remote0);
}

/// After any batch of remote messages, one more message `m` is appended,
/// and becomes the synced timestamp, exactly when it is newer than the
/// synced timestamp and no local message has both its timestamp and its
/// sender; messages of the same sender at other timestamps do not hold it
/// back. Otherwise nothing changes.
pub proof fn law_merge_appends_unless_same_message(
    local: Seq<ChatMessage>,
    last: u64,
    remote: Seq<ChatMessage>,
    m: ChatMessage,
)
    ensures
        ({
            let p = merge_spec(local, last, remote);
            let r = merge_spec(local, last, remote.push(m));
            &&& (m.timestamp > p.1 && forall|i: int|
                0 <= i < p.0.len() ==> !((#[trigger] p.0[i]).timestamp == m.timestamp
                    && p.0[i].sender@ == m.sender@)) ==> r == (p.0.push(m), m.timestamp)
            &&& (m.timestamp <= p.1 || exists|i: int|
                0 <= i < p.0.len() && (#[trigger] p.0[i]).timestamp == m.timestamp
                    && p.0[i].sender@ == m.sender@) ==> r == p
        }),
{
    assert(remote.push(m).drop_last() =~= remote);
    assert(remote.push(m).last() == m);
}

/// `m` needs nothing more from the state (`local`, `last`): it is not
/// newer than `last`, or an equal message is present.
pub open spec fn absorbed(local: Seq<ChatMessage>, last: u64, m: ChatMessage) -> bool {
    m.timestamp <= last || already_has(local, m)
}

/// Merging only appends and never moves the synced timestamp back.
pub proof fn law_merge_keeps_local(local: Seq<ChatMessage>, last: u64, remote: Seq<ChatMessage>)
    ensures
        merge_spec(local, last, remote).0.len() >= local.len(),
        merge_spec(local, last, remote).0.subrange(0, local.len() as int) == local,
        merge_spec(local, last, remote).1 >= last,
    decreases remote.len(),
{
    if remote.len() > 0 {
        law_merge_keeps_local(local, last, remote.drop_last());
        let prev = merge_spec(local, last, remote.drop_last());
        let r = merge_spec(local, last, remote);
        assert(r.0.subrange(0, local.len() as int) =~= prev.0.subrange(0, local.len() as int));
    }
}

proof fn lemma_absorbed_persists(
    l1: Seq<ChatMessage>,
    t1: u64,
    l2: Seq<ChatMessage>,
    t2: u64,
    m: ChatMessage,
)
    requires
        absorbed(l1, t1, m),
        l2.len() >= l1.len(),
        l2.subrange(0, l1.len() as int) == l1,
        t2 >= t1,
    ensures
        absorbed(l2, t2, m),
{
    if m.timestamp > t1 {
        let i = choose|i: int|
            0 <= i < l1.len() && (#[trigger] l1[i]).timestamp == m.timestamp && l1[i].sender@
                == m.sender@;
        assert(l2.subrange(0, l1.len() as int)[i] == l2[i]);
        assert(l2[i] == l1[i]);
    }
}

proof fn lemma_all_absorbed(local: Seq<ChatMessage>, last: u64, remote: Seq<ChatMessage>)
    ensures
        forall|j: int|
            0 <= j < remote.len() ==> absorbed(
                merge_spec(local, last, remote).0,
                merge_spec(local, last, remote).1,
                #[trigger] remote[j],
            ),
    decreases remote.len(),
{
    if remote.len() > 0 {
        let d = remote.drop_last();
        lemma_all_absorbed(local, last, d);
        let prev = merge_spec(local, last, d);
        let r = merge_spec(local, last, remote);
        let m = remote.last();
        assert(r.0.subrange(0, prev.0.len() as int) =~= prev.0);
        assert forall|j: int| 0 <= j < remote.len() implies absorbed(r.0, r.1, #[trigger] remote[j]) by {
            if j < remote.len() - 1 {
                assert(remote[j] == d[j]);
                lemma_absorbed_persists(prev.0, prev.1, r.0, r.1, d[j]);
            } else {
                if m.timestamp > prev.1 && !already_has(prev.0, m) {
                    assert(r.0[prev.0.len() as int] == m);
                }
            }
        }
    }
}

proof fn lemma_merge_absorbed_is_noop(local: Seq<ChatMessage>, last: u64, remote: Seq<ChatMessage>)
    requires
        forall|j: int| 0 <= j < remote.len() ==> absorbed(local, last, #[trigger] remote[j]),
    ensures
        merge_spec(local, last, remote) == (local, last),
    decreases remote.len(),
{
    if remote.len() > 0 {
        let d = remote.drop_last();
        assert forall|j: int| 0 <= j < d.len() implies absorbed(local, last, #[trigger] d[j]) by {
            assert(d[j] == remote[j]);
        }
        lemma_merge_absorbed_is_noop(local, last, d);
        assert(absorbed(local, last, remote[remote.len() - 1]));
    }
}

/// No two messages share both timestamp and sender.
pub open spec fn no_duplicates(s: Seq<ChatMessage>) -> bool {
    forall|i: int, j: int|
        0 <= i < j < s.len() ==> !(#[trigger] s[i].timestamp == #[trigger] s[j].timestamp
            && s[i].sender@ == s[j].sender@)
}

/// Merging never brings in a second message with the timestamp and
/// sender of one already held.
pub proof fn law_merge_no_duplicates(local: Seq<ChatMessage>, last: u64, remote: Seq<ChatMessage>)
    requires
        no_duplicates(local),
    ensures
        no_duplicates(merge_spec(local, last, remote).0),
    decreases remote.len(),
{
    if remote.len() > 0 {
        law_merge_no_duplicates(local, last, remote.drop_last());
        let prev = merge_spec(local, last, remote.drop_last());
        let m = remote.last();
        if m.timestamp > prev.1 && !already_has(prev.0, m) {
            let r = prev.0.push(m);
            assert forall|i: int, j: int|
                0 <= i < j < r.len() implies !(#[trigger] r[i].timestamp == #[trigger] r[j].timestamp
                && r[i].sender@ == r[j].sender@) by {
                if j == r.len() - 1 {
                    assert(r[i] == prev.0[i]);
                    if r[i].timestamp == m.timestamp && r[i].sender@ == m.sender@ {
                        assert(already_has(prev.0, m));
                    }
                } else {
                    assert(r[i] == prev.0[i] && r[j] == prev.0[j]);
                }
            }
        }
    }
}

/// Every appended message is newer than the synced timestamp before the
/// merge and no newer than the synced timestamp after it, and they are
/// appended in strictly increasing order of timestamp.
pub proof fn law_merge_appends_newer(local: Seq<ChatMessage>, last: u64, remote: Seq<ChatMessage>)
    ensures
        ({
            let r = merge_spec(local, last, remote);
            &&& forall|k: int|
                local.len() <= k < r.0.len() ==> last < #[trigger] r.0[k].timestamp <= r.1
            &&& forall|a: int, b: int|
                local.len() <= a < b < r.0.len() ==> #[trigger] r.0[a].timestamp
                    < #[trigger] r.0[b].timestamp
        }),
    decreases remote.len(),
{
    if remote.len() > 0 {
        law_merge_appends_newer(local, last, remote.drop_last());
        law_merge_keeps_local(local, last, remote.drop_last());
        let prev = merge_spec(local, last, remote.drop_last());
        let r = merge_spec(local, last, remote);
        let m = remote.last();
        if m.timestamp > prev.1 && !already_has(prev.0, m) {
            assert forall|k: int| local.len() <= k < r.0.len() implies last < #[trigger] r.0[k].timestamp
                <= r.1 by {
                if k < prev.0.len() {
                    assert(r.0[k] == prev.0[k]);
                }
            }
            assert forall|a: int, b: int|
                local.len() <= a < b < r.0.len() implies #[trigger] r.0[a].timestamp
                < #[trigger] r.0[b].timestamp by {
                assert(r.0[a] == prev.0[a]);
                if b < prev.0.len() {
                    assert(r.0[b] == prev.0[b]);
                }
            }
        }
    }
}

/// Merging the same batch of remote messages a second time changes
/// nothing: neither the local messages nor the synced timestamp.
pub proof fn law_merge_idempotent(local: Seq<ChatMessage>, last: u64, remote: Seq<ChatMessage>)
    ensures
        ({
            let r = merge_spec(local, last, remote);
            merge_spec(r.0, r.1, remote) == r
        }),
{
    let r = merge_spec(local, last, remote);
    lemma_all_absorbed(local, last, remote);
    lemma_merge_absorbed_is_noop(r.0, r.1, remote);
}

} // verus!
