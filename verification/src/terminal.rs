//! The terminal protocol between browser and server: the resize message, the
//! set-up wizard that picks a base image and shell, and the commands that
//! prepare a fresh container.
use vstd::prelude::*;
use crate::text::{
    decimal, decimal_string, parse_u16, parsed_u16, trimmed, trim, str_eq, starts_with,
    chars_of, digits_value, all_digits, is_digit, unsigned_digits, digit_char,
};

verus! {

/// The query of a spawn request: which published project the terminal views,
/// when it views one.
#[derive(Debug)]
pub struct SpawnViewQuery {
    pub username: Option<String>,
    pub slug: Option<String>,
}

impl SpawnViewQuery {
    /// The owner and slug of the viewed project, when both are given; a view
    /// is recorded for that project.
    pub fn viewed_project(&self) -> (r: Option<(String, String)>)
        ensures
            match r {
                Some((u, s)) => crate::rejection::opt_text(self.username) == Some(u@)
                    && crate::rejection::opt_text(self.slug) == Some(s@),
                None => self.username is None || self.slug is None,
            },
    {
        match (&self.username, &self.slug) {
            (Some(u), Some(s)) => Some((u.clone(), s.clone())),
            _ => None,
        }
    }
}

/// The message the browser sends when its terminal changes size.
pub open spec fn resize_text(cols: u16, rows: u16) -> Seq<char> {
    "RESIZE:"@ + decimal(cols as nat) + ":"@ + decimal(rows as nat)
}

/// Builds the resize message `RESIZE:<cols>:<rows>`.
pub fn resize_message(cols: u16, rows: u16) -> (r: String)
    ensures
        r@ == resize_text(cols, rows),
{
    let mut r = "RESIZE:".to_owned();
    let c = decimal_string(cols as u64);
    r.append(c.as_str());
    r.append(":");
    let w = decimal_string(rows as u64);
    r.append(w.as_str());
    r
}

/// Number of colons in `s`.
pub open spec fn colon_count(s: Seq<char>) -> nat
    decreases s.len(),
{
    if s.len() == 0 {
        0
    } else {
        colon_count(s.drop_last()) + if s.last() == ':' { 1nat } else { 0nat }
    }
}

/// Position of the first colon of `s` (its length when there is none).
pub open spec fn first_colon(s: Seq<char>) -> int
    decreases s.len(),
{
    if s.len() == 0 {
        0
    } else if s[0] == ':' {
        0
    } else {
        1 + first_colon(s.drop_first())
    }
}

/// What the server reads from a terminal message: a message that starts
/// with `RESIZE:` is a resize request, honoured when it has exactly three
/// colon-separated fields whose last two are 16-bit numbers.
#[derive(Debug)]
pub enum TerminalInput {
    Resize(u16, u16),
    Ignore,
    Forward,
}

/// The reading of a terminal message (see `TerminalInput`).
pub open spec fn input_kind(s: Seq<char>) -> TerminalInput {
    if "RESIZE:"@.is_prefix_of(s) {
        let rest = s.skip(7);
        if colon_count(rest) == 1 {
            let j = first_colon(rest);
            match (parsed_u16(rest.take(j)), parsed_u16(rest.skip(j + 1))) {
                (Some(w), Some(h)) => TerminalInput::Resize(w, h),
                _ => TerminalInput::Ignore,
            }
        } else {
            TerminalInput::Ignore
        }
    } else {
        TerminalInput::Forward
    }
}

proof fn lemma_colon_scan(s: Seq<char>, i: int)
    requires
        0 <= i <= s.len(),
    ensures
        colon_count(s.take(i)) <= colon_count(s),
    decreases s.len() - i,
{
    if i < s.len() {
        assert(s.drop_last().take(i) =~= s.take(i));
        lemma_colon_scan(s.drop_last(), i);
    } else {
        assert(s.take(i) =~= s);
    }
}

proof fn lemma_first_colon(s: Seq<char>, j: int)
    requires
        0 <= j <= s.len(),
        forall|m: int| 0 <= m < j ==> s[m] != ':',
        j == s.len() || s[j] == ':',
    ensures
        first_colon(s) == j,
    decreases j,
{
    if j > 0 {
        let t = s.drop_first();
        assert forall|m: int| 0 <= m < j - 1 implies t[m] != ':' by {
            assert(t[m] == s[m + 1]);
        }
        if j - 1 < t.len() {
            assert(t[j - 1] == s[j]);
        }
        lemma_first_colon(t, j - 1);
    }
}

proof fn lemma_colon_count_free(s: Seq<char>)
    requires
        forall|m: int| 0 <= m < s.len() ==> s[m] != ':',
    ensures
        colon_count(s) == 0,
    decreases s.len(),
{
    if s.len() > 0 {
        assert forall|m: int| 0 <= m < s.drop_last().len() implies s.drop_last()[m] != ':' by {
            assert(s.drop_last()[m] == s[m]);
        }
        lemma_colon_count_free(s.drop_last());
    }
}

proof fn lemma_colon_count_add(a: Seq<char>, b: Seq<char>)
    ensures
        colon_count(a + b) == colon_count(a) + colon_count(b),
    decreases b.len(),
{
    if b.len() > 0 {
        assert((a + b).drop_last() =~= a + b.drop_last());
        lemma_colon_count_add(a, b.drop_last());
    } else {
        assert(a + b =~= a);
    }
}

/// Counts the colons of `v` at or after position `from`, up to two.
fn colon_positions(v: &Vec<char>, from: usize) -> (r: (usize, Option<usize>, bool))
    requires
        from <= v@.len(),
    ensures
        ({
            let rest = v@.skip(from as int);
            &&& (r.2 <==> colon_count(rest) == 1)
            &&& (r.2 ==> (r.1 matches Some(f) && from <= f < v@.len() && f == from + first_colon(rest)))
        }),
{
    let ghost rest = v@.skip(from as int);
    let mut i: usize = from;
    let mut seen: usize = 0;
    let mut first: Option<usize> = None;
    while i < v.len()
        invariant
            rest == v@.skip(from as int),
            from <= i <= v@.len(),
            seen == colon_count(rest.take(i - from)),
            seen <= 1,
            seen == 0 ==> first is None && forall|m: int| from <= m < i ==> v@[m] != ':',
            seen >= 1 ==> (first matches Some(f) && from <= f < i && v@[f as int] == ':' && forall|m: int| from <= m < f ==> v@[m] != ':'),
        decreases v.len() - i,
    {
        assert(rest.take(i - from + 1).drop_last() =~= rest.take(i - from));
        assert(rest.take(i - from + 1).last() == v@[i as int]);
        if v[i] == ':' {
            if seen == 1 {
                proof {
                    lemma_colon_scan(rest, i - from + 1);
                }
                return (seen + 1, first, false);
            }
            if seen == 0 {
                first = Some(i);
            }
            seen = seen + 1;
        }
        i = i + 1;
    }
    assert(rest.take(i - from) =~= rest);
    proof {
        if seen == 1 {
            let f = first.unwrap();
            assert forall|m: int| 0 <= m < f - from implies rest[m] != ':' by {
                assert(rest[m] == v@[m + from]);
            }
            assert(rest[f - from] == v@[f as int]);
            lemma_first_colon(rest, f - from);
        }
    }
    (seen, first, seen == 1)
}

/// Reads a terminal message (see `input_kind`).
pub fn classify_input(text: &str) -> (r: TerminalInput)
    ensures
        r == input_kind(text@),
{
    if !starts_with(text, "RESIZE:") {
        return TerminalInput::Forward;
    }
    proof {
        reveal_strlit("RESIZE:");
    }
    let v = chars_of(text);
    let (_, first, exactly_one) = colon_positions(&v, 7);
    if !exactly_one {
        return TerminalInput::Ignore;
    }
    let j = first.unwrap();
    let ghost rest = text@.skip(7);
    assert(v@ == text@);
    let w_text = text.substring_char(7, j);
    let h_text = text.substring_char(j + 1, v.len());
    assert(w_text@ =~= rest.take(j - 7));
    assert(h_text@ =~= rest.skip(j - 7 + 1));
    match (parse_u16(w_text), parse_u16(h_text)) {
        (Some(w), Some(h)) => TerminalInput::Resize(w, h),
        _ => TerminalInput::Ignore,
    }
}

proof fn lemma_digit_char(d: nat)
    requires
        d < 10,
    ensures
        is_digit(digit_char(d)),
        digit_char(d) as int - '0' as int == d,
        digit_char(d) != ':',
        digit_char(d) != '+',
{
}

/// The decimal text of a number is a non-empty run of digits with that value.
pub proof fn lemma_decimal(n: nat)
    ensures
        decimal(n).len() > 0,
        all_digits(decimal(n)),
        digits_value(decimal(n)) == n,
        forall|m: int| 0 <= m < decimal(n).len() ==> decimal(n)[m] != ':' && decimal(n)[m] != '+',
    decreases n,
{
    let d = decimal(n);
    if n < 10 {
        lemma_digit_char(n);
        assert(n % 10 == n);
        assert(d.drop_last() =~= Seq::<char>::empty());
        assert(digits_value(Seq::<char>::empty()) == 0);
        assert(d.last() == digit_char(n));
        assert(digits_value(d) == digits_value(d.drop_last()) * 10 + ((d.last() as int - '0' as int) as nat));
    } else {
        lemma_decimal(n / 10);
        lemma_digit_char(n % 10);
        assert(d == decimal(n / 10).push(digit_char(n % 10)));
        assert(d.drop_last() =~= decimal(n / 10));
        assert(d.last() == digit_char(n % 10));
        assert(digits_value(d) == digits_value(d.drop_last()) * 10 + ((d.last() as int - '0' as int) as nat));
        assert((n / 10) * 10 + n % 10 == n) by (nonlinear_arith);
        assert forall|m: int| 0 <= m < d.len() implies is_digit(#[trigger] d[m]) && d[m] != ':' && d[m] != '+' by {
            if m < d.len() - 1 {
                assert(d[m] == decimal(n / 10)[m]);
            }
        }
    }
}

proof fn lemma_parse_decimal(n: u16)
    ensures
        parsed_u16(decimal(n as nat)) == Some(n),
{
    let d = decimal(n as nat);
    lemma_decimal(n as nat);
    assert(d[0] != '+');
    assert(unsigned_digits(d) == d);
}

proof fn lemma_one_colon()
    ensures
        colon_count(":"@) == 1,
{
    reveal_strlit(":");
    let s = ":"@;
    assert(s.drop_last() =~= Seq::<char>::empty());
    assert(colon_count(Seq::<char>::empty()) == 0);
}

/// The server reads back exactly the size that the browser's resize message carries.
pub proof fn law_resize_round_trip(cols: u16, rows: u16)
    ensures
        input_kind(resize_text(cols, rows)) == TerminalInput::Resize(cols, rows),
{
    let c = decimal(cols as nat);
    let r = decimal(rows as nat);
    let s = resize_text(cols, rows);
    lemma_decimal(cols as nat);
    lemma_decimal(rows as nat);
    reveal_strlit("RESIZE:");
    reveal_strlit(":");
    let rest = c + ":"@ + r;
    assert(s =~= "RESIZE:"@ + rest);
    assert(s.skip(7) =~= rest);
    assert("RESIZE:"@.is_prefix_of(s));
    lemma_colon_count_free(c);
    lemma_colon_count_free(r);
    lemma_one_colon();
    lemma_colon_count_add(c, ":"@);
    lemma_colon_count_add(c + ":"@, r);
    assert(colon_count(rest) == 1);
    assert forall|m: int| 0 <= m < c.len() implies rest[m] != ':' by {
        assert(rest[m] == c[m]);
    }
    assert(rest[c.len() as int] == ':');
    lemma_first_colon(rest, c.len() as int);
    assert(rest.take(c.len() as int) =~= c);
    assert(rest.skip(c.len() as int + 1) =~= r);
    lemma_parse_decimal(cols);
    lemma_parse_decimal(rows);
}

/// Reads a menu answer of the set-up wizard: `1`, `2` or `3`, around which
/// white space is ignored.
pub open spec fn menu_choice(input: Seq<char>) -> Option<u8> {
    let t = trimmed(input);
    if t == "1"@ {
        Some(1)
    } else if t == "2"@ {
        Some(2)
    } else if t == "3"@ {
        Some(3)
    } else {
        None
    }
}

/// A menu answer is one of the three offered numbers, and it is read only
/// from a message that is exactly that digit once white space around it is
/// ignored.
pub proof fn law_menu_choice(input: Seq<char>)
    ensures
        menu_choice(input) matches Some(n) ==> 1 <= n <= 3 && trimmed(input) == decimal(n as nat),
        menu_choice(input) is None ==> trimmed(input) != "1"@ && trimmed(input) != "2"@ && trimmed(input) != "3"@,
{
    reveal_strlit("1");
    reveal_strlit("2");
    reveal_strlit("3");
    match menu_choice(input) {
        Some(n) => {
            assert(decimal(n as nat) =~= seq![digit_char(n as nat)]);
        },
        None => {},
    }
}

/// Reads a menu answer (see `menu_choice`); anything else is ignored.
pub fn read_menu_choice(input: &str) -> (r: Option<u8>)
    ensures
        r == menu_choice(input@),
{
    let t = trim(input);
    if str_eq(t, "1") {
        Some(1)
    } else if str_eq(t, "2") {
        Some(2)
    } else if str_eq(t, "3") {
        Some(3)
    } else {
        None
    }
}

/// The base image, install command and final shell for a choice of
/// distribution (1 Ubuntu, 2 Alpine, 3 Debian) and shell (1 Bash, 2 Zsh,
/// 3 Fish); anything unrecognised falls back to Debian with Bash.
pub open spec fn provision(distro: u8, shell: u8) -> (Seq<char>, Seq<char>, Seq<char>) {
    let apt_zsh = "export DEBIAN_FRONTEND=noninteractive; apt-get update && apt-get install -y zsh"@;
    let apt_fish = "export DEBIAN_FRONTEND=noninteractive; apt-get update && apt-get install -y fish"@;
    let apt_image = if distro == 1 { "ubuntu:22.04"@ } else { "debian:bookworm-slim"@ };
    if distro == 2 && shell == 1 {
        ("alpine:latest"@, "apk add --no-cache bash"@, "/bin/bash"@)
    } else if distro == 2 && shell == 2 {
        ("alpine:latest"@, "apk add --no-cache zsh"@, "/bin/zsh"@)
    } else if distro == 2 && shell == 3 {
        ("alpine:latest"@, "apk add --no-cache fish"@, "/usr/bin/fish"@)
    } else if (distro == 1 || distro == 3) && shell == 2 {
        (apt_image, apt_zsh, "/usr/bin/zsh"@)
    } else if (distro == 1 || distro == 3) && shell == 3 {
        (apt_image, apt_fish, "/usr/bin/fish"@)
    } else if distro == 1 {
        ("ubuntu:22.04"@, "true"@, "/bin/bash"@)
    } else {
        ("debian:bookworm-slim"@, "true"@, "/bin/bash"@)
    }
}

/// The image follows the chosen distribution whatever the shell: Ubuntu for
/// answer 1, Alpine for answer 2 with a recognised shell, Debian for answer 3
/// and for anything unrecognised. The final shell follows the chosen shell:
/// Fish for answer 3 and Zsh for answer 2 on a recognised distribution, Bash
/// otherwise; nothing is installed for Bash on Ubuntu or Debian.
pub proof fn law_provision_follows_answers(distro: u8, shell: u8)
    ensures
        distro == 1 ==> provision(distro, shell).0 == "ubuntu:22.04"@,
        distro == 2 && 1 <= shell <= 3 ==> provision(distro, shell).0 == "alpine:latest"@,
        distro == 3 ==> provision(distro, shell).0 == "debian:bookworm-slim"@,
        !(1 <= distro <= 3) ==> provision(distro, shell) == ("debian:bookworm-slim"@, "true"@, "/bin/bash"@),
        1 <= distro <= 3 && shell == 3 ==> provision(distro, shell).2 == "/usr/bin/fish"@,
        1 <= distro <= 3 && shell == 2 ==> provision(distro, shell).2 == (if distro == 2 { "/bin/zsh"@ } else { "/usr/bin/zsh"@ }),
        !(1 <= distro <= 3 && 2 <= shell <= 3) ==> provision(distro, shell).2 == "/bin/bash"@,
        (distro == 1 || distro == 3) && !(2 <= shell <= 3) ==> provision(distro, shell).1 == "true"@,
{
}

/// The base image, install command and final shell for the wizard's answers.
pub fn provision_plan(distro: u8, shell: u8) -> (r: (&'static str, &'static str, &'static str))
    ensures
        (r.0@, r.1@, r.2@) == provision(distro, shell),
{
    if distro == 2 && shell == 1 {
        ("alpine:latest", "apk add --no-cache bash", "/bin/bash")
    } else if distro == 2 && shell == 2 {
        ("alpine:latest", "apk add --no-cache zsh", "/bin/zsh")
    } else if distro == 2 && shell == 3 {
        ("alpine:latest", "apk add --no-cache fish", "/usr/bin/fish")
    } else if (distro == 1 || distro == 3) && shell == 2 {
        let image = if distro == 1 { "ubuntu:22.04" } else { "debian:bookworm-slim" };
        (image, "export DEBIAN_FRONTEND=noninteractive; apt-get update && apt-get install -y zsh", "/usr/bin/zsh")
    } else if (distro == 1 || distro == 3) && shell == 3 {
        let image = if distro == 1 { "ubuntu:22.04" } else { "debian:bookworm-slim" };
        (image, "export DEBIAN_FRONTEND=noninteractive; apt-get update && apt-get install -y fish", "/usr/bin/fish")
    } else if distro == 1 {
        ("ubuntu:22.04", "true", "/bin/bash")
    } else {
        ("debian:bookworm-slim", "true", "/bin/bash")
    }
}

/// The command typed into a fresh builder container: turn off echo, cap apt
/// download speed, run the install command, clear the screen, and become the
/// chosen shell.
pub open spec fn setup_command(install: Seq<char>, shell: Seq<char>) -> Seq<char> {
    "stty -echo; mkdir -p /etc/apt/apt.conf.d && echo 'Acquire::http::Dl-Limit \"500\"; Acquire::https::Dl-Limit \"500\";' > /etc/apt/apt.conf.d/99limit && "@
        + install + " && printf '\\033[2J\\033[3J\\033[H' && exec "@ + shell + "\n"@
}

/// Builds the command typed into a fresh builder container (see `setup_command`).
pub fn auto_type_command(install: &str, shell: &str) -> (r: String)
    ensures
        r@ == setup_command(install@, shell@),
{
    let mut r = "stty -echo; mkdir -p /etc/apt/apt.conf.d && echo 'Acquire::http::Dl-Limit \"500\"; Acquire::https::Dl-Limit \"500\";' > /etc/apt/apt.conf.d/99limit && ".to_owned();
    r.append(install);
    r.append(" && printf '\\033[2J\\033[3J\\033[H' && exec ");
    r.append(shell);
    r.append("\n");
    r
}

/// The name of a new builder container.
pub open spec fn builder_container(id: Seq<char>) -> Seq<char> {
    "trycli-studio-session-"@ + id
}

/// The name of a new viewer container.
pub open spec fn viewer_container(id: Seq<char>) -> Seq<char> {
    "trycli-studio-viewer-"@ + id
}

/// Names a builder container after a fresh unique id.
pub fn builder_container_name(id: &str) -> (r: String)
    ensures
        r@ == builder_container(id@),
{
    let mut r = "trycli-studio-session-".to_owned();
    r.append(id);
    r
}

/// Names a viewer container after a fresh unique id.
pub fn viewer_container_name(id: &str) -> (r: String)
    ensures
        r@ == viewer_container(id@),
{
    let mut r = "trycli-studio-viewer-".to_owned();
    r.append(id);
    r
}

/// The `SHELL=` environment entry of a viewer container.
pub fn shell_env(shell: &str) -> (r: String)
    ensures
        r@ == "SHELL="@ + shell@,
{
    let mut r = "SHELL=".to_owned();
    r.append(shell);
    r
}

} // verus!
