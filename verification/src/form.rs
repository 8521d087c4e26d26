//! The "add / edit tunnel" form: its initial values, the name and id it
//! proposes, and how a submitted form becomes a tunnel or is refused.
use vstd::prelude::*;
use crate::config::{TunnelConfig, TunnelType};
use crate::text::{
    alphanumeric, digit_char, digits, has_substring, hex4, hex4_string, is_alphanumeric, is_prefix_of,
    join2, join3, lowercase, owned, replace_char, replace_char_spec, strip_prefix, to_chars,
    to_lowercase, trim, trimmed, contains, from_chars,
};

verus! {

// ---------------------------------------------------------------------------
// Port numbers
// ---------------------------------------------------------------------------

/// An ASCII decimal digit.
pub open spec fn is_digit(c: char) -> bool {
    '0' <= c <= '9'
}

/// The value of a string of decimal digits.
pub open spec fn digits_value(s: Seq<char>) -> nat
    decreases s.len(),
{
    if s.len() == 0 {
        0
    } else {
        digits_value(s.drop_last()) * 10 + ((s.last() as nat) - 48) as nat
    }
}

/// The digits of a number text: without one leading `+`.
pub open spec fn unsigned_digits(s: Seq<char>) -> Seq<char> {
    if s.len() > 0 && s[0] == '+' {
        s.skip(1)
    } else {
        s
    }
}

/// The text is a valid `u16` as `str::parse::<u16>` reads it: an optional
/// `+`, then at least one decimal digit, with a value below 65536.
pub open spec fn is_u16_text(s: Seq<char>) -> bool {
    let d = unsigned_digits(s);
    &&& d.len() > 0
    &&& forall|i: int| 0 <= i < d.len() ==> is_digit(#[trigger] d[i])
    &&& digits_value(d) <= 65535
}

/// A longer run of digits is worth at least as much as its prefix.
proof fn lemma_digits_value_grows(s: Seq<char>, i: int)
    requires
        0 <= i <= s.len(),
        forall|k: int| 0 <= k < s.len() ==> is_digit(#[trigger] s[k]),
    ensures
        digits_value(s.take(i)) <= digits_value(s),
    decreases s.len() - i,
{
    if i < s.len() {
        let t = s.take(i + 1);
        assert(t.drop_last() =~= s.take(i));
        assert(is_digit(t.last()));
        assert(digits_value(t) >= digits_value(s.take(i)) * 10) by (nonlinear_arith)
            requires
                digits_value(t) == digits_value(t.drop_last()) * 10 + ((t.last() as nat) - 48) as nat,
                t.drop_last() == s.take(i),
        ;
        lemma_digits_value_grows(s, i + 1);
    } else {
        assert(s.take(i) =~= s);
    }
}

/// The port number that `s` denotes, if it is a valid `u16` text.
pub fn parse_port(s: &str) -> (r: Option<u16>)
    ensures
        r.is_some() == is_u16_text(s@),
        r matches Some(v) ==> v as nat == digits_value(unsigned_digits(s@)),
{
    let v = to_chars(s);
    let start: usize = if v.len() > 0 && v[0] == '+' {
        1
    } else {
        0
    };
    let ghost d = unsigned_digits(s@);
    assert(d =~= v@.skip(start as int));
    if start >= v.len() {
        return None;
    }
    let mut value: u32 = 0;
    let mut i: usize = start;
    while i < v.len()
        invariant
            v@ == s@,
            d == v@.skip(start as int),
            d == unsigned_digits(s@),
            start <= i <= v.len(),
            forall|k: int| 0 <= k < i - start ==> is_digit(#[trigger] d[k]),
            value as nat == digits_value(d.take(i - start)),
            value <= 65535,
        decreases v.len() - i,
    {
        let c = v[i];
        let ghost t = d.take(i - start + 1);
        assert(t.drop_last() =~= d.take(i - start));
        assert(t.last() == c);
        if !('0' <= c && c <= '9') {
            assert(!is_digit(d[i - start]));
            return None;
        }
        let digit: u32 = (c as u32) - 48;
        let next: u32 = value * 10 + digit;
        if next > 65535 {
            proof {
                assert(next as nat == digits_value(t));
                if forall|k: int| 0 <= k < d.len() ==> is_digit(#[trigger] d[k]) {
                    lemma_digits_value_grows(d, i - start + 1);
                }
            }
            return None;
        }
        value = next;
        i = i + 1;
    }
    assert(d.take(d.len() as int) =~= d);
    Some(value as u16)
}

/// The decimal digits of `n` read back as `n`.
proof fn lemma_decimal_value(n: nat)
    ensures
        digits(n, 10).len() > 0,
        forall|i: int| 0 <= i < digits(n, 10).len() ==> is_digit(#[trigger] digits(n, 10)[i]),
        digits_value(digits(n, 10)) == n,
    decreases n,
{
    if n < 10 {
        assert(digit_char(n) as nat == 48 + n);
        assert(digits(n, 10).drop_last() =~= Seq::<char>::empty());
        assert(digits(n, 10)[0] == digit_char(n));
        assert(is_digit(digit_char(n)));
        assert(digits_value(digits(n, 10).drop_last()) == 0);
        assert(digits(n, 10).last() == digit_char(n));
    } else {
        lemma_decimal_value(n / 10);
        let d = digits(n, 10);
        assert(d == digits(n / 10, 10).push(digit_char(n % 10)));
        assert(d.drop_last() =~= digits(n / 10, 10));
        assert(digit_char(n % 10) as nat == 48 + n % 10);
        assert(n == (n / 10) * 10 + n % 10) by (nonlinear_arith);
        assert(d.last() == digit_char(n % 10));
        assert(digits_value(d) == digits_value(d.drop_last()) * 10 + ((d.last() as nat) - 48) as nat);
        assert(is_digit(digit_char(n % 10)));
        assert forall|i: int| 0 <= i < d.len() implies is_digit(#[trigger] d[i]) by {
            if i < d.len() - 1 {
                assert(d[i] == digits(n / 10, 10)[i]);
            }
        }
    }
}

/// Every port number, written in decimal, is a valid port text that reads
/// back as that number.
pub proof fn lemma_port_text_round_trip(n: u16)
    ensures
        is_u16_text(digits(n as nat, 10)),
        digits_value(unsigned_digits(digits(n as nat, 10))) == n,
{
    lemma_decimal_value(n as nat);
    let d = digits(n as nat, 10);
    assert(is_digit(d[0]));
    assert(unsigned_digits(d) == d);
}

// ---------------------------------------------------------------------------
// The form
// ---------------------------------------------------------------------------

/// What the form holds.
#[derive(Debug)]
pub struct TunnelForm {
    pub tunnel_type: TunnelType,
    pub local_port: String,
    pub vdomain_addr: String,
    pub host_header: String,
    pub custom_name: String,
    pub custom_id: String,
}

/// Why a submitted form was refused.
#[derive(Debug, Clone, Copy, PartialEq, Eq, Structural)]
pub enum FormError {
    EmptyId,
    EmptyPort,
    InvalidPort,
    EmptyAddress,
}

impl FormError {
    /// The message shown under the form.
    pub open spec fn spec_message(self) -> Seq<char> {
        match self {
            FormError::EmptyId => "Tunnel ID cannot be empty"@,
            FormError::EmptyPort => "Port cannot be empty"@,
            FormError::InvalidPort => "Invalid port number"@,
            FormError::EmptyAddress => "Address and Host Header cannot be empty"@,
        }
    }

    /// The message shown under the form.
    pub fn message(&self) -> (r: String)
        ensures
            r@ == self.spec_message(),
    {
        match self {
            FormError::EmptyId => owned("Tunnel ID cannot be empty"),
            FormError::EmptyPort => owned("Port cannot be empty"),
            FormError::InvalidPort => owned("Invalid port number"),
            FormError::EmptyAddress => owned("Address and Host Header cannot be empty"),
        }
    }
}

/// The port shown when editing a port tunnel: its address without the
/// `127.0.0.1:` prefix (the whole address when it has another form).
pub open spec fn port_of_addr(addr: Seq<char>) -> Seq<char> {
    if is_prefix_of("127.0.0.1:"@, addr) {
        addr.skip(10)
    } else {
        addr
    }
}

/// The form's values: those of the tunnel being edited, else the defaults
/// (port 8000, address 127.0.0.1:80, host mysite.local, no name or id).
pub open spec fn initial_form_of(editing: Option<TunnelConfig>) -> (
    TunnelType,
    Seq<char>,
    Seq<char>,
    Seq<char>,
    Seq<char>,
    Seq<char>,
) {
    match editing {
        None => (TunnelType::Port, "8000"@, "127.0.0.1:80"@, "mysite.local"@, Seq::empty(), Seq::empty()),
        Some(t) => (
            t.tunnel_type,
            if t.tunnel_type == TunnelType::Port { port_of_addr(t.local_addr@) } else { "8000"@ },
            if t.tunnel_type == TunnelType::VirtualDomain { t.local_addr@ } else { "127.0.0.1:80"@ },
            match t.host_header {
                Some(h) => h@,
                None => "mysite.local"@,
            },
            t.name@,
            t.id@,
        ),
    }
}

/// The form's view as a tuple of its fields.
pub open spec fn form_fields(f: TunnelForm) -> (
    TunnelType,
    Seq<char>,
    Seq<char>,
    Seq<char>,
    Seq<char>,
    Seq<char>,
) {
    (f.tunnel_type, f.local_port@, f.vdomain_addr@, f.host_header@, f.custom_name@, f.custom_id@)
}

/// The form as it opens, for a new tunnel or for the tunnel being edited.
pub fn initial_form(editing: &Option<TunnelConfig>) -> (r: TunnelForm)
    ensures
        form_fields(r) == initial_form_of(*editing),
{
    proof {
        reveal_strlit("127.0.0.1:");
    }
    match editing {
        None => TunnelForm {
            tunnel_type: TunnelType::Port,
            local_port: owned("8000"),
            vdomain_addr: owned("127.0.0.1:80"),
            host_header: owned("mysite.local"),
            custom_name: String::new(),
            custom_id: String::new(),
        },
        Some(t) => {
            let local_port = if t.tunnel_type == TunnelType::Port {
                match strip_prefix(t.local_addr.as_str(), "127.0.0.1:") {
                    Some(p) => p,
                    None => t.local_addr.clone(),
                }
            } else {
                owned("8000")
            };
            let vdomain_addr = if t.tunnel_type == TunnelType::VirtualDomain {
                t.local_addr.clone()
            } else {
                owned("127.0.0.1:80")
            };
            let host_header = match &t.host_header {
                Some(h) => h.clone(),
                None => owned("mysite.local"),
            };
            TunnelForm {
                tunnel_type: t.tunnel_type,
                local_port,
                vdomain_addr,
                host_header,
                custom_name: t.name.clone(),
                custom_id: t.id.clone(),
            }
        },
    }
}

/// The name proposed for a tunnel: `port-<port>`, or `vdom-<host>` with the
/// host's dots turned into dashes.
pub open spec fn computed_name_of(t: TunnelType, port: Seq<char>, host: Seq<char>) -> Seq<char> {
    match t {
        TunnelType::Port => "port-"@ + port,
        TunnelType::VirtualDomain => "vdom-"@ + replace_char_spec(host, '.', "-"@),
    }
}

/// The name the form proposes.
pub fn computed_name(f: &TunnelForm) -> (r: String)
    ensures
        r@ == computed_name_of(f.tunnel_type, f.local_port@, f.host_header@),
{
    match f.tunnel_type {
        TunnelType::Port => join2("port-", f.local_port.as_str()),
        TunnelType::VirtualDomain => {
            let dashed = replace_char(f.host_header.as_str(), '.', "-");
            join2("vdom-", dashed.as_str())
        },
    }
}

/// A character kept in a tunnel id: alphanumeric, or a dash.
pub open spec fn is_id_char(c: char) -> bool {
    alphanumeric(c) || c == '-'
}

/// The characters of `s` that may stand in an id, in order.
pub open spec fn id_chars(s: Seq<char>) -> Seq<char>
    decreases s.len(),
{
    if s.len() == 0 {
        s
    } else if is_id_char(s.last()) {
        id_chars(s.drop_last()).push(s.last())
    } else {
        id_chars(s.drop_last())
    }
}

/// An id made from `s`: lowercased, keeping only id characters.
pub open spec fn id_from(s: Seq<char>) -> Seq<char> {
    id_chars(lowercase(s))
}

/// The test that decides which characters an id keeps: letters and digits
/// (in any script) and dashes.
pub open spec fn allowed_in_id() -> spec_fn(char) -> bool {
    |c: char| alphanumeric(c) || c == '-'
}

/// An id is the text in small letters with every character dropped that
/// is neither a letter or digit nor a dash; the others stay, in order.
pub proof fn lemma_id_keeps_letters_digits_dashes(s: Seq<char>)
    ensures
        id_from(s) == lowercase(s).filter(allowed_in_id()),
{
    lemma_id_chars_filter(lowercase(s));
}

/// [`id_chars`] keeps what [`allowed_in_id`] allows.
proof fn lemma_id_chars_filter(s: Seq<char>)
    ensures
        id_chars(s) == s.filter(allowed_in_id()),
    decreases s.len(),
{
    reveal(Seq::filter);
    if s.len() > 0 {
        lemma_id_chars_filter(s.drop_last());
    }
}

/// An id made from `s`.
pub fn make_id(s: &str) -> (r: String)
    ensures
        r@ == id_from(s@),
{
    let lower = to_lowercase(s);
    let v = to_chars(lower.as_str());
    let mut kept: Vec<char> = Vec::new();
    let mut i: usize = 0;
    while i < v.len()
        invariant
            i <= v.len(),
            kept@ == id_chars(v@.take(i as int)),
        decreases v.len() - i,
    {
        assert(v@.take(i + 1).drop_last() =~= v@.take(i as int));
        let c = v[i];
        if is_alphanumeric(c) || c == '-' {
            kept.push(c);
        }
        i = i + 1;
    }
    assert(v@.take(v.len() as int) =~= v@);
    from_chars(&kept)
}

/// The id a new tunnel gets from base id `base`: kept when it already has
/// a `-tunnel-` part, else followed by `-tunnel-` and the random suffix.
pub open spec fn full_id(base: Seq<char>, suffix: Seq<char>) -> Seq<char> {
    if has_substring(base, "-tunnel-"@) {
        base
    } else {
        base + "-tunnel-"@ + suffix
    }
}

/// The tunnel a submitted form describes, or why it is refused. The name
/// defaults to the proposed one; a new tunnel's id comes from the id field
/// (or the proposed name) with a random four-hex-digit suffix, drawn as
/// `suffix_value`; an edited tunnel keeps its id. A port tunnel needs a
/// valid port; a virtual domain needs an address and a host.
pub open spec fn submitted(f: TunnelForm, is_editing: bool, suffix_value: u32) -> Result<
    (Seq<char>, Seq<char>, Seq<char>, Option<Seq<char>>, TunnelType),
    FormError,
> {
    let name = if trimmed(f.custom_name@).len() == 0 {
        computed_name_of(f.tunnel_type, f.local_port@, f.host_header@)
    } else {
        f.custom_name@
    };
    let base = if trimmed(f.custom_id@).len() == 0 {
        id_from(computed_name_of(f.tunnel_type, f.local_port@, f.host_header@))
    } else {
        id_from(f.custom_id@)
    };
    let id = if is_editing {
        f.custom_id@
    } else {
        full_id(base, hex4(suffix_value as nat))
    };
    if !is_editing && base.len() == 0 {
        Err(FormError::EmptyId)
    } else if id.len() == 0 {
        Err(FormError::EmptyId)
    } else {
        match f.tunnel_type {
            TunnelType::Port => {
                let port = trimmed(f.local_port@);
                if port.len() == 0 {
                    Err(FormError::EmptyPort)
                } else if !is_u16_text(port) {
                    Err(FormError::InvalidPort)
                } else {
                    Ok((id, name, "127.0.0.1:"@ + port, None, TunnelType::Port))
                }
            },
            TunnelType::VirtualDomain => {
                let addr = trimmed(f.vdomain_addr@);
                let host = trimmed(f.host_header@);
                if addr.len() == 0 || host.len() == 0 {
                    Err(FormError::EmptyAddress)
                } else {
                    Ok((id, name, addr, Some(host), TunnelType::VirtualDomain))
                }
            },
        }
    }
}

/// A submitted tunnel carries the name the user typed whenever that name
/// is not blank, whatever the tunnel's type; a blank name becomes "port-"
/// and the port for a port tunnel, or "vdom-" and the host with its dots
/// turned into dashes for a virtual domain.
pub proof fn lemma_submitted_name(f: TunnelForm, is_editing: bool, suffix_value: u32)
    requires
        submitted(f, is_editing, suffix_value).is_ok(),
    ensures
        trimmed(f.custom_name@).len() > 0 ==> submitted(f, is_editing, suffix_value)->Ok_0.1
            == f.custom_name@,
        trimmed(f.custom_name@).len() == 0 && f.tunnel_type == TunnelType::Port ==> submitted(
            f,
            is_editing,
            suffix_value,
        )->Ok_0.1 == "port-"@ + f.local_port@,
        trimmed(f.custom_name@).len() == 0 && f.tunnel_type == TunnelType::VirtualDomain
            ==> submitted(f, is_editing, suffix_value)->Ok_0.1 == "vdom-"@ + replace_char_spec(
            f.host_header@,
            '.',
            "-"@,
        ),
{
}

/// The name field decides nothing but the name: two forms that differ only
/// in it are accepted or refused alike, and give the same id, address,
/// host and type.
pub proof fn lemma_name_decides_only_the_name(
    f: TunnelForm,
    g: TunnelForm,
    is_editing: bool,
    suffix_value: u32,
)
    requires
        f.tunnel_type == g.tunnel_type,
        f.local_port@ == g.local_port@,
        f.vdomain_addr@ == g.vdomain_addr@,
        f.host_header@ == g.host_header@,
        f.custom_id@ == g.custom_id@,
    ensures
        submitted(f, is_editing, suffix_value).is_ok() == submitted(g, is_editing, suffix_value).is_ok(),
        submitted(f, is_editing, suffix_value).is_err() ==> submitted(f, is_editing, suffix_value)
            == submitted(g, is_editing, suffix_value),
        submitted(f, is_editing, suffix_value).is_ok() ==> {
            let a = submitted(f, is_editing, suffix_value)->Ok_0;
            let b = submitted(g, is_editing, suffix_value)->Ok_0;
            a.0 == b.0 && a.2 == b.2 && a.3 == b.3 && a.4 == b.4
        },
{
}

/// Editing a tunnel and submitting the form unchanged gives the tunnel
/// back: same id, name, address, host and type. This holds of every tunnel
/// the form can describe: a port tunnel on 127.0.0.1 with a valid port and
/// no host, or a virtual domain with an address and a host; each with an
/// id, a name that is not blank, and no stray spaces around its fields.
pub proof fn lemma_edit_round_trip(t: TunnelConfig, f: TunnelForm, port: Seq<char>, suffix_value: u32)
    requires
        form_fields(f) == initial_form_of(Some(t)),
        t.id@.len() > 0,
        trimmed(t.name@).len() > 0,
        t.tunnel_type == TunnelType::Port ==> t.local_addr@ == "127.0.0.1:"@ + port && trimmed(port)
            == port && is_u16_text(port) && t.host_header is None,
        t.tunnel_type == TunnelType::VirtualDomain ==> trimmed(t.local_addr@) == t.local_addr@
            && t.local_addr@.len() > 0 && t.host_header is Some && trimmed(t.host_header->Some_0@)
            == t.host_header->Some_0@ && t.host_header->Some_0@.len() > 0,
    ensures
        submitted(f, true, suffix_value) == Ok::<
            (Seq<char>, Seq<char>, Seq<char>, Option<Seq<char>>, TunnelType),
            FormError,
        >(
            (
                t.id@,
                t.name@,
                t.local_addr@,
                match t.host_header {
                    Some(h) => Some(h@),
                    None => None,
                },
                t.tunnel_type,
            ),
        ),
{
    reveal_strlit("127.0.0.1:");
    if t.tunnel_type == TunnelType::Port {
        let a = "127.0.0.1:"@ + port;
        assert(a.take(10) =~= "127.0.0.1:"@);
        assert(a.skip(10) =~= port);
        assert(port_of_addr(t.local_addr@) == port);
    }
}

/// Every tunnel created from the form (not edited) has an id with a
/// `-tunnel-` part, and no tunnel it describes has an empty id.
pub proof fn lemma_new_ids_are_tagged(f: TunnelForm, is_editing: bool, suffix_value: u32)
    requires
        submitted(f, is_editing, suffix_value).is_ok(),
    ensures
        submitted(f, is_editing, suffix_value)->Ok_0.0.len() > 0,
        !is_editing ==> has_substring(submitted(f, is_editing, suffix_value)->Ok_0.0, "-tunnel-"@),
{
    if !is_editing {
        let base = if trimmed(f.custom_id@).len() == 0 {
            id_from(computed_name_of(f.tunnel_type, f.local_port@, f.host_header@))
        } else {
            id_from(f.custom_id@)
        };
        let suffix = hex4(suffix_value as nat);
        if !has_substring(base, "-tunnel-"@) {
            reveal_strlit("-tunnel-");
            let id = base + "-tunnel-"@ + suffix;
            assert(id.subrange(base.len() as int, base.len() + 8int) =~= "-tunnel-"@);
            assert(crate::text::occurs_at(id, "-tunnel-"@, base.len() as int));
        }
    }
}

/// A port tunnel from the form points at 127.0.0.1 on a valid port.
pub proof fn lemma_port_tunnels_are_local(f: TunnelForm, is_editing: bool, suffix_value: u32)
    requires
        submitted(f, is_editing, suffix_value).is_ok(),
        f.tunnel_type == TunnelType::Port,
    ensures
        submitted(f, is_editing, suffix_value)->Ok_0.2 == "127.0.0.1:"@ + trimmed(f.local_port@),
        is_u16_text(trimmed(f.local_port@)),
        submitted(f, is_editing, suffix_value)->Ok_0.3.is_none(),
{
}

/// The fields of a tunnel as a tuple.
pub open spec fn tunnel_fields(t: TunnelConfig) -> (
    Seq<char>,
    Seq<char>,
    Seq<char>,
    Option<Seq<char>>,
    TunnelType,
) {
    (
        t.id@,
        t.name@,
        t.local_addr@,
        match t.host_header {
            Some(h) => Some(h@),
            None => None,
        },
        t.tunnel_type,
    )
}

/// The tunnel that the submitted form describes, or why it is refused
/// (see [`submitted`]).
pub fn submit_form(f: &TunnelForm, is_editing: bool, suffix_value: u32) -> (r: Result<
    TunnelConfig,
    FormError,
>)
    ensures
        r.is_ok() == submitted(*f, is_editing, suffix_value).is_ok(),
        r matches Ok(t) ==> tunnel_fields(t) == submitted(*f, is_editing, suffix_value)->Ok_0,
        r matches Err(e) ==> e == submitted(*f, is_editing, suffix_value)->Err_0,
{
    let proposed = computed_name(f);
    let name = if trim(f.custom_name.as_str()).as_str().is_empty() {
        proposed.clone()
    } else {
        f.custom_name.clone()
    };
    let id = if is_editing {
        f.custom_id.clone()
    } else {
        let base = if trim(f.custom_id.as_str()).as_str().is_empty() {
            make_id(proposed.as_str())
        } else {
            make_id(f.custom_id.as_str())
        };
        if base.as_str().is_empty() {
            return Err(FormError::EmptyId);
        }
        if contains(base.as_str(), "-tunnel-") {
            base
        } else {
            let suffix = hex4_string(suffix_value);
            join3(base.as_str(), "-tunnel-", suffix.as_str())
        }
    };
    if id.as_str().is_empty() {
        return Err(FormError::EmptyId);
    }
    match f.tunnel_type {
        TunnelType::Port => {
            let port = trim(f.local_port.as_str());
            if port.as_str().is_empty() {
                return Err(FormError::EmptyPort);
            }
            if parse_port(port.as_str()).is_none() {
                return Err(FormError::InvalidPort);
            }
            Ok(
                TunnelConfig {
                    id,
                    name,
                    local_addr: join2("127.0.0.1:", port.as_str()),
                    host_header: None,
                    tunnel_type: TunnelType::Port,
                },
            )
        },
        TunnelType::VirtualDomain => {
            let addr = trim(f.vdomain_addr.as_str());
            let host = trim(f.host_header.as_str());
            if addr.as_str().is_empty() || host.as_str().is_empty() {
                return Err(FormError::EmptyAddress);
            }
            Ok(
                TunnelConfig {
                    id,
                    name,
                    local_addr: addr,
                    host_header: Some(host),
                    tunnel_type: TunnelType::VirtualDomain,
                },
            )
        },
    }
}

/// The random suffix of a new tunnel's id: the drawn value in four
/// lowercase hexadecimal digits.
pub fn random_suffix(value: u32) -> (r: String)
    ensures
        r@ == hex4(value as nat),
{
    hex4_string(value)
}

} // verus!
