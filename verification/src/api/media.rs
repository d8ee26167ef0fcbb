//! Images in messages: which addresses get the token and in which form, and what
//! is accepted of a download. Images live on Microsoft media hosts, which ask for
//! the token, and on public hosts, which must never see it.
use crate::text;
use vstd::utf8::is_ascii_chars;
use vstd::prelude::*;

verus! {

/// The most bytes of a download: more are refused, never cut off.
pub const MAX_BYTES: usize = 15_728_640;

/// Downloaded bytes, and the content type that the server gave.
#[derive(Debug)]
pub struct MediaBytes {
    pub data: Vec<u8>,
    pub content_type: Option<String>,
}

/// The authority of an https address: what stands between the scheme and the path,
/// the query or the fragment. Web clients take a backslash for a slash.
pub open spec fn authority(url: Seq<char>) -> Option<Seq<char>> {
    match text::after_prefix(text::trimmed(url), "https://"@) {
        Some(rest) => Some(text::before_any(rest, "/?#\\"@)),
        None => None,
    }
}

/// The host of an https address, as it stands there: the authority without the user
/// before its last `@` and without the port.
pub open spec fn host_part(url: Seq<char>) -> Option<Seq<char>> {
    match authority(url) {
        Some(a) => Some(text::before_first(text::after_last(a, '@'), ':')),
        None => None,
    }
}

/// The host of an https address in lower case, where there is one.
pub open spec fn host(url: Seq<char>) -> Option<Seq<char>> {
    match host_part(url) {
        Some(h) => if text::unicode_lower(h).len() == 0 {
            None
        } else {
            Some(text::unicode_lower(h))
        },
        None => None,
    }
}

/// The host of an https address that is written in ASCII, in lower case.
pub open spec fn ascii_host(url: Seq<char>) -> Option<Seq<char>> {
    match host_part(url) {
        Some(h) => if is_ascii_chars(h) && h.len() > 0 {
            Some(text::lowered(h))
        } else {
            None
        },
        None => None,
    }
}

/// True of a host of the media store or of the chat service.
pub open spec fn is_media_host(h: Seq<char>) -> bool {
    ||| ".msg.teams.microsoft.com"@.is_suffix_of(h)
    ||| ".msg.skype.com"@.is_suffix_of(h)
    ||| ".asm.skype.com"@.is_suffix_of(h)
    ||| ".asyncgw.teams.microsoft.com"@.is_suffix_of(h)
    ||| ".skype.com"@.is_suffix_of(h)
    ||| ".teams.microsoft.com"@.is_suffix_of(h)
    ||| ".teams.live.com"@.is_suffix_of(h)
    ||| h == "msg.teams.microsoft.com"@
    ||| h == "msg.skype.com"@
    ||| h == "asm.skype.com"@
    ||| h == "asyncgw.teams.microsoft.com"@
}

/// True of a host of the object store.
pub open spec fn is_object_host(h: Seq<char>) -> bool {
    ||| h == "asm.skype.com"@
    ||| ".asm.skype.com"@.is_suffix_of(h)
    ||| h == "asyncgw.teams.microsoft.com"@
    ||| ".asyncgw.teams.microsoft.com"@.is_suffix_of(h)
}

/// The headers that carry the token to a host.
pub open spec fn token_headers(h: Option<Seq<char>>, token: Seq<char>) -> Seq<
    (Seq<char>, Seq<char>),
> {
    match h {
        Some(h) => if !is_media_host(h) {
            Seq::empty()
        } else if is_object_host(h) {
            seq![("Authorization"@, "skype_token "@ + token)]
        } else {
            seq![("Authentication"@, "skypetoken="@ + token), ("X-SkypeToken"@, token)]
        },
        None => Seq::empty(),
    }
}

/// The token goes to hosts under `skype.com`, `teams.microsoft.com` and
/// `teams.live.com` and to no others, and to none without https. The host is the one
/// that the request goes to, whatever user stands before it.
pub proof fn law_token_stays_home(url: Seq<char>, token: Seq<char>)
    ensures
        token_headers(host(url), token).len() > 0 <==> {
            &&& "https://"@.is_prefix_of(text::trimmed(url))
            &&& host(url) matches Some(h) && (".skype.com"@.is_suffix_of(h)
                || ".teams.microsoft.com"@.is_suffix_of(h) || ".teams.live.com"@.is_suffix_of(h))
        },
{
    reveal_strlit(".msg.teams.microsoft.com");
    reveal_strlit(".msg.skype.com");
    reveal_strlit(".asm.skype.com");
    reveal_strlit(".asyncgw.teams.microsoft.com");
    reveal_strlit(".skype.com");
    reveal_strlit(".teams.microsoft.com");
    reveal_strlit("msg.teams.microsoft.com");
    reveal_strlit("msg.skype.com");
    reveal_strlit("asm.skype.com");
    reveal_strlit("asyncgw.teams.microsoft.com");
    if let Some(h) = host(url) {
        lemma_suffix_of_suffix(".skype.com"@, ".msg.skype.com"@, h);
        lemma_suffix_of_suffix(".skype.com"@, ".asm.skype.com"@, h);
        lemma_suffix_of_suffix(".teams.microsoft.com"@, ".msg.teams.microsoft.com"@, h);
        lemma_suffix_of_suffix(".teams.microsoft.com"@, ".asyncgw.teams.microsoft.com"@, h);
        lemma_suffix_of_suffix(".skype.com"@, "msg.skype.com"@, h);
        lemma_suffix_of_suffix(".skype.com"@, "asm.skype.com"@, h);
        lemma_suffix_of_suffix(".teams.microsoft.com"@, "msg.teams.microsoft.com"@, h);
        lemma_suffix_of_suffix(".teams.microsoft.com"@, "asyncgw.teams.microsoft.com"@, h);
        assert("msg.teams.microsoft.com"@.is_suffix_of("msg.teams.microsoft.com"@)) by {
            let m = "msg.teams.microsoft.com"@;
            assert(m.subrange(0, m.len() as int) =~= m);
        }
        assert(h.subrange(0, h.len() as int) =~= h);
    }
}

proof fn lemma_suffix_of_suffix(a: Seq<char>, b: Seq<char>, s: Seq<char>)
    requires
        a.len() <= b.len(),
        forall|i: int| 0 <= i < a.len() ==> a[i] == #[trigger] b[b.len() - a.len() + i],
    ensures
        b.is_suffix_of(s) ==> a.is_suffix_of(s),
{
    if b.is_suffix_of(s) {
        assert forall|i: int| 0 <= i < a.len() implies a[i] == s[s.len() - a.len() + i] by {
            let k = b.len() - a.len() + i;
            assert(a[i] == b[k]);
            assert(b[k] == s.subrange(s.len() - b.len(), s.len() as int)[k]);
        }
        assert(a =~= s.subrange(s.len() - a.len(), s.len() as int));
    }
}

/// The object store is never sent the chat service's headers, which it refuses.
pub proof fn law_object_store_scheme(h: Seq<char>, token: Seq<char>)
    requires
        is_object_host(h),
    ensures
        token_headers(Some(h), token) == seq![("Authorization"@, "skype_token "@ + token)],
{
}

/// The headers of a list by their texts.
pub open spec fn header_views(v: Seq<(&'static str, String)>) -> Seq<(Seq<char>, Seq<char>)> {
    Seq::new(v.len(), |i: int| (v[i].0@, v[i].1@))
}

/// The host of an https address in lower case, where there is one.
pub fn host_of(url: &str) -> (r: Option<String>)
    ensures
        text::opt_text(r) == host(url@),
        ascii_host(url@) matches Some(h) ==> r matches Some(x) && x@ == h,
{
    let t = text::trim(url);
    match text::strip_prefix(t.as_str(), "https://") {
        Some(rest) => {
            let authority = text::take_before_any(rest.as_str(), "/?#\\");
            let named = text::take_after_last(authority.as_str(), '@');
            let part = text::take_before(named.as_str(), ':');
            let h = text::to_lowercase(part.as_str());
            if h.as_str().is_empty() {
                None
            } else {
                Some(h)
            }
        },
        None => None,
    }
}

fn on_media_host(h: &str) -> (r: bool)
    ensures
        r == is_media_host(h@),
{
    text::ends_with(h, ".msg.teams.microsoft.com") || text::ends_with(h, ".msg.skype.com")
        || text::ends_with(h, ".asm.skype.com") || text::ends_with(
            h,
            ".asyncgw.teams.microsoft.com",
        )
        || text::ends_with(h, ".skype.com") || text::ends_with(h, ".teams.microsoft.com")
        || text::ends_with(h, ".teams.live.com") || text::same(h, "msg.teams.microsoft.com")
        || text::same(h, "msg.skype.com") || text::same(h, "asm.skype.com") || text::same(
        h,
        "asyncgw.teams.microsoft.com",
    )
}

fn on_object_host(h: &str) -> (r: bool)
    ensures
        r == is_object_host(h@),
{
    text::same(h, "asm.skype.com") || text::ends_with(h, ".asm.skype.com") || text::same(
        h,
        "asyncgw.teams.microsoft.com",
    ) || text::ends_with(h, ".asyncgw.teams.microsoft.com")
}

/// True when an address is on a media host and so needs the token.
pub fn needs_auth(url: &str) -> (r: bool)
    ensures
        r == (host(url@) matches Some(h) && is_media_host(h)),
        ascii_host(url@) matches Some(h) ==> r == is_media_host(h),
{
    match host_of(url) {
        Some(h) => on_media_host(h.as_str()),
        None => false,
    }
}

/// The headers that carry the token to a host; none for a host that is not to
/// have it.
pub fn headers_for_host(h: Option<&str>, token: &str) -> (r: Vec<(&'static str, String)>)
    ensures
        header_views(r@) == token_headers(text::opt_str(h), token@),
{
    let mut v: Vec<(&'static str, String)> = Vec::new();
    proof {
        assert(header_views(v@) =~= Seq::empty());
    }
    if let Some(h) = h {
        if on_media_host(h) {
            if on_object_host(h) {
                v.push(("Authorization", text::join2("skype_token ", token)));
            } else {
                v.push(("Authentication", text::join2("skypetoken=", token)));
                v.push(("X-SkypeToken", token.to_string()));
            }
        }
        proof {
            assert(header_views(v@) =~= token_headers(Some(h@), token@));
        }
    }
    v
}

/// The headers that carry the token to an address.
pub fn auth_headers(url: &str, token: &str) -> (r: Vec<(&'static str, String)>)
    ensures
        header_views(r@) == token_headers(host(url@), token@),
        ascii_host(url@) is Some ==> header_views(r@) == token_headers(ascii_host(url@), token@),
{
    match host_of(url) {
        Some(h) => headers_for_host(Some(h.as_str()), token),
        None => headers_for_host(None, token),
    }
}

/// The address that is to be downloaded; the error is the text to show.
pub fn fetch_media_data(url: &str) -> (r: Result<String, String>)
    ensures
        match r {
            Ok(u) => u@ == text::trimmed(url@) && "https://"@.is_prefix_of(u@) && host(u@) is Some,
            Err(e) => if !"https://"@.is_prefix_of(text::trimmed(url@)) {
                e@ == "media: only https URLs are fetched"@
            } else {
                host(text::trimmed(url@)) is None && e@ == "media: unparseable URL"@
            },
        },
{
    let u = text::trim(url);
    if !text::starts_with(u.as_str(), "https://") {
        return Err("media: only https URLs are fetched".to_string());
    }
    if host_of(u.as_str()).is_none() {
        return Err("media: unparseable URL".to_string());
    }
    Ok(u)
}

/// Takes a download, unless it is too large; the error is the text to show.
pub fn accept_media(url: &str, data: Vec<u8>, content_type: Option<String>) -> (r: Result<
    MediaBytes,
    String,
>)
    ensures
        match r {
            Ok(m) => data@.len() <= 15_728_640 && m.data == data && m.content_type == content_type,
            Err(e) => data@.len() > 15_728_640 && e@
                == "Media "@ + url@ + " exceeds 15728640 bytes"@,
        },
{
    if data.len() > MAX_BYTES {
        return Err(text::join3("Media ", url, " exceeds 15728640 bytes"));
    }
    Ok(MediaBytes { data, content_type })
}

/// The host of an address is what stands behind the scheme and the user, up to the port
/// or the path.
pub proof fn law_host_stands_behind_the_user(
    user: Seq<char>,
    name: Seq<char>,
    port: Seq<char>,
    path: Seq<char>,
)
    requires
        forall|i: int|
            0 <= i < user.len() ==> !"/?#\\"@.contains(#[trigger] user[i]),
        forall|i: int|
            0 <= i < name.len() ==> !"/?#\\"@.contains(#[trigger] name[i]) && name[i] != ':'
                && name[i] != '@',
        forall|i: int|
            0 <= i < port.len() ==> !"/?#\\"@.contains(#[trigger] port[i]) && port[i] != '@',
        path.len() > 0 ==> path[0] == '/',
        !text::is_space(("https://"@ + user + "@"@ + name + ":"@ + port + path).last()),
    ensures
        host_part("https://"@ + user + "@"@ + name + ":"@ + port + path) == Some(name),
{
    let scheme = "https://"@;
    assert(scheme.len() == 8 && scheme[0] == 'h') by {
        reveal_strlit("https://");
    }
    assert("@"@.len() == 1 && "@"@[0] == '@') by {
        reveal_strlit("@");
    }
    assert(":"@.len() == 1 && ":"@[0] == ':') by {
        reveal_strlit(":");
    }
    let stops = "/?#\\"@;
    assert(stops.contains('/') && !stops.contains(':') && !stops.contains('@')) by {
        reveal_strlit("/?#\\");
        assert(stops[0] == '/');
    }
    let auth = user + "@"@ + name + ":"@ + port;
    let url = scheme + user + "@"@ + name + ":"@ + port + path;
    assert(url[0] == 'h');
    text::lemma_trimmed_tight(url);
    let rest = auth + path;
    assert(url =~= scheme + rest);
    text::law_prefix_and_suffix_come_off(rest, scheme);
    assert forall|i: int| 0 <= i < auth.len() implies !stops.contains(#[trigger] auth[i]) by {
        if i < user.len() {
            assert(auth[i] == user[i]);
        } else if i == user.len() {
        } else if i <= user.len() + name.len() {
            assert(auth[i] == name[i - user.len() - 1]);
        } else if i == user.len() + name.len() + 1 {
        } else {
            assert(auth[i] == port[i - user.len() - name.len() - 2]);
        }
    }
    lemma_up_to_the_path(auth, path, stops);
    assert(authority(url) == Some(auth));
    lemma_host_in_authority(user, name, port);
}

// What stands before a path.
proof fn lemma_up_to_the_path(auth: Seq<char>, path: Seq<char>, stops: Seq<char>)
    requires
        forall|i: int| 0 <= i < auth.len() ==> !stops.contains(#[trigger] auth[i]),
        path.len() > 0 ==> stops.contains(path[0]),
    ensures
        text::before_any(auth + path, stops) == auth,
{
    let rest = auth + path;
    text::law_before_any_holds_none(rest, stops);
    let b = text::before_any(rest, stops);
    assert(b == rest.subrange(0, b.len() as int));
    if b.len() < auth.len() {
        assert(rest[b.len() as int] == auth[b.len() as int]);
    }
    if b.len() > auth.len() {
        assert(b[auth.len() as int] == path[0]);
    }
    assert(b =~= auth);
}

// Where the host stands between the user and the port.
proof fn lemma_host_in_authority(user: Seq<char>, name: Seq<char>, port: Seq<char>)
    requires
        forall|i: int| 0 <= i < name.len() ==> #[trigger] name[i] != ':' && name[i] != '@',
        forall|i: int| 0 <= i < port.len() ==> #[trigger] port[i] != '@',
    ensures
        text::before_first(text::after_last(user + "@"@ + name + ":"@ + port, '@'), ':') == name,
{
    assert("@"@.len() == 1 && "@"@[0] == '@') by {
        reveal_strlit("@");
    }
    assert(":"@.len() == 1 && ":"@[0] == ':') by {
        reveal_strlit(":");
    }
    let auth = user + "@"@ + name + ":"@ + port;
    let behind = name + ":"@ + port;
    assert(!behind.contains('@')) by {
        if behind.contains('@') {
            let i = choose|i: int| 0 <= i < behind.len() && behind[i] == '@';
            if i < name.len() {
                assert(behind[i] == name[i]);
            } else if i > name.len() {
                assert(behind[i] == port[i - name.len() - 1]);
            }
        }
    }
    assert(auth =~= user + Seq::empty().push('@') + behind);
    text::law_parts_at_a_character(user, behind, '@');
    assert(!name.contains(':')) by {
        if name.contains(':') {
            let i = choose|i: int| 0 <= i < name.len() && name[i] == ':';
            assert(name[i] != ':');
        }
    }
    assert(behind =~= name + Seq::empty().push(':') + port);
    text::law_parts_at_a_character(name, port, ':');
}

/// A host that is served the chat service's headers is served both, with the token.
pub proof fn law_chat_hosts_get_both_headers(h: Seq<char>, token: Seq<char>)
    requires
        is_media_host(h),
        !is_object_host(h),
    ensures
        token_headers(Some(h), token).len() == 2,
        token_headers(Some(h), token)[0] == ("Authentication"@, "skypetoken="@ + token),
        token_headers(Some(h), token)[1] == ("X-SkypeToken"@, token),
        token_headers(None, token).len() == 0,
{
}

/// The host of an address in plain letters is known by its small letters.
pub proof fn law_plain_host_in_small_letters(url: Seq<char>, h: Seq<char>)
    requires
        host_part(url) == Some(h),
        is_ascii_chars(h),
        h.len() > 0,
    ensures
        ascii_host(url) == Some(text::lowered(h)),
{
}

/// An address without a user or a port names its host before its path; what is no https
/// address names none.
pub proof fn law_host_stands_before_the_path(name: Seq<char>, path: Seq<char>)
    requires
        forall|i: int|
            0 <= i < name.len() ==> !"/?#\\"@.contains(#[trigger] name[i]) && name[i] != ':'
                && name[i] != '@',
        path.len() > 0 ==> path[0] == '/',
        !text::is_space(("https://"@ + name + path).last()),
    ensures
        host_part("https://"@ + name + path) == Some(name),
        host_part(Seq::empty()) is None,
{
    let scheme = "https://"@;
    assert(scheme.len() == 8 && scheme[0] == 'h') by {
        reveal_strlit("https://");
    }
    let stops = "/?#\\"@;
    assert(stops.contains('/')) by {
        reveal_strlit("/?#\\");
        assert(stops[0] == '/');
    }
    let url = scheme + name + path;
    assert(url[0] == 'h');
    text::lemma_trimmed_tight(url);
    assert(url =~= scheme + (name + path));
    text::law_prefix_and_suffix_come_off(name + path, scheme);
    lemma_up_to_the_path(name, path, stops);
    assert(!name.contains('@') && !name.contains(':')) by {
        if name.contains('@') {
            let i = choose|i: int| 0 <= i < name.len() && name[i] == '@';
            assert(name[i] != '@');
        }
        if name.contains(':') {
            let i = choose|i: int| 0 <= i < name.len() && name[i] == ':';
            assert(name[i] != ':');
        }
    }
    text::law_parts_at_a_character(name, Seq::empty(), '@');
    text::law_parts_at_a_character(name, Seq::empty(), ':');
    text::lemma_trimmed_tight(Seq::empty());
}

} // verus!
