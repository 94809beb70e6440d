//! Command construction: the programs and argument lists that install,
//! remove and update packages, with the sanitising of package names and of
//! free-form arguments.
use vstd::prelude::*;

use crate::models::AppConfig;
use crate::pattern::{
    all_lower_name_chars, lower_name_pattern, shell_meta_char, shell_meta_pattern,
    without_shell_meta, Pattern,
};
use crate::text::{join, join_spec, str_eq, string_push, views};

verus! {

/// The views of a list of string slices.
pub open spec fn strs_view(v: Seq<&str>) -> Seq<Seq<char>> {
    v.map_values(|s: &str| s@)
}

/// The views of a list of commands.
pub open spec fn commands_view(v: Seq<CommandSpec>) -> Seq<(Seq<char>, Seq<Seq<char>>)> {
    v.map_values(|c: CommandSpec| c@)
}

/// Structured command specification (program + arguments).
#[derive(Debug, Clone)]
pub struct CommandSpec {
    pub prog: String,
    pub args: Vec<String>,
}

impl View for CommandSpec {
    type V = (Seq<char>, Seq<Seq<char>>);

    open spec fn view(&self) -> (Seq<char>, Seq<Seq<char>>) {
        (self.prog@, self.args.deep_view())
    }
}

impl CommandSpec {
    /// A command run with elevated rights when `prog` says so.
    pub fn new(prog: &str, args: Vec<String>) -> (r: CommandSpec)
        ensures
            r@ == (prog@, args.deep_view()),
    {
        CommandSpec { prog: prog.to_owned(), args }
    }

    /// A command run as the user.
    pub fn new_no_sudo(prog: &str, args: Vec<String>) -> (r: CommandSpec)
        ensures
            r@ == (prog@, args.deep_view()),
    {
        CommandSpec { prog: prog.to_owned(), args }
    }
}

/// The text of a command line: the program, a space and the arguments
/// separated by spaces.
pub open spec fn display_spec(c: (Seq<char>, Seq<Seq<char>>)) -> Seq<char> {
    c.0 + seq![' '] + join_spec(c.1, seq![' '])
}

/// The command line of `spec` as one string, for display.
pub fn command_display(spec: &CommandSpec) -> (r: String)
    ensures
        r@ == display_spec(spec@),
{
    let mut r = spec.prog.clone();
    string_push(&mut r, ' ');
    let sep = " ";
    proof {
        reveal_strlit(" ");
        assert(sep@ =~= seq![' ']);
    }
    let rest = join(&spec.args, sep);
    r.append(rest.as_str());
    r
}

// ---------------------------------------------------------------------------
// Package names
// ---------------------------------------------------------------------------

/// The name of a char that `char::is_alphanumeric` accepts.
pub uninterp spec fn unicode_alphanumeric(c: char) -> bool;

/// `char::is_alphanumeric`. Its result is named [`unicode_alphanumeric`];
/// for ASCII characters the std documentation (alphabetic or numeric)
/// gives the letters and digits.
#[verifier::external_body]
pub(crate) fn is_alphanumeric(c: char) -> (r: bool)
    ensures
        r == unicode_alphanumeric(c),
        (c as u32) < 128 ==> (r <==> (('a' <= c && c <= 'z') || ('A' <= c && c <= 'Z') || ('0'
            <= c && c <= '9'))),
{
    c.is_alphanumeric()
}

/// Characters that may stay in a package name.
pub open spec fn name_char_allowed(c: char) -> bool {
    unicode_alphanumeric(c) || c == '@' || c == '.' || c == '_' || c == '+' || c == '-'
}

/// `name` with every character that may not stay in a package name removed.
pub open spec fn sanitized_name(s: Seq<char>) -> Seq<char>
    decreases s.len(),
{
    if s.len() == 0 {
        Seq::empty()
    } else {
        let r = sanitized_name(s.drop_last());
        if name_char_allowed(s.last()) {
            r.push(s.last())
        } else {
            r
        }
    }
}

pub open spec fn sanitized_names(names: Seq<Seq<char>>) -> Seq<Seq<char>> {
    names.map_values(|n: Seq<char>| sanitized_name(n))
}

/// Every character of `s` may stay in a package name.
pub open spec fn only_allowed(s: Seq<char>) -> bool {
    forall|i: int| 0 <= i < s.len() ==> #[trigger] name_char_allowed(s[i])
}

proof fn lemma_allowed_fixed(s: Seq<char>)
    requires
        only_allowed(s),
    ensures
        sanitized_name(s) == s,
    decreases s.len(),
{
    if s.len() > 0 {
        assert(only_allowed(s.drop_last())) by {
            assert forall|i: int| 0 <= i < s.drop_last().len() implies #[trigger] name_char_allowed(
                s.drop_last()[i],
            ) by {
                assert(s.drop_last()[i] == s[i]);
            }
        }
        lemma_allowed_fixed(s.drop_last());
        assert(name_char_allowed(s[s.len() - 1]));
        assert(s.drop_last().push(s.last()) =~= s);
    }
}

/// A sanitised package name holds only characters that may stay in a
/// package name (alphanumerics and `@ . _ + -`), and sanitising it again
/// changes nothing.
pub proof fn law_sanitized_name_is_clean(s: Seq<char>)
    ensures
        only_allowed(sanitized_name(s)),
        sanitized_name(sanitized_name(s)) == sanitized_name(s),
        sanitized_name(s).len() <= s.len(),
    decreases s.len(),
{
    if s.len() > 0 {
        law_sanitized_name_is_clean(s.drop_last());
        let r = sanitized_name(s.drop_last());
        if name_char_allowed(s.last()) {
            assert forall|i: int| 0 <= i < r.push(s.last()).len() implies #[trigger] name_char_allowed(
                r.push(s.last())[i],
            ) by {
                if i < r.len() {
                    assert(r.push(s.last())[i] == r[i]);
                }
            }
        }
    }
    lemma_allowed_fixed(sanitized_name(s));
}

/// A name made only of allowed characters passes through sanitising
/// unchanged.
pub proof fn law_clean_name_unchanged(s: Seq<char>)
    requires
        only_allowed(s),
    ensures
        sanitized_name(s) == s,
{
    lemma_allowed_fixed(s);
}

/// A package name that the install and remove commands accept unchanged:
/// the whole name matches `^[a-z0-9@._+-]+$`, so it is non-empty and made
/// of lower-case ASCII letters, digits and `@ . _ + -`.
pub open spec fn valid_package_name(s: Seq<char>) -> bool {
    all_lower_name_chars(s)
}

/// A free-form argument with every character of `; & | < > $ ` " \n \r \0`
/// removed (the matches of `[;&|<>$`"\n\r\x00]` replaced by nothing).
pub open spec fn sanitized_arg(s: Seq<char>) -> Seq<char> {
    without_shell_meta(s)
}

/// A sanitised argument holds none of the removed characters, keeps every
/// other character in order, and an argument without them passes through
/// unchanged.
pub proof fn law_sanitized_arg_removes_exactly(s: Seq<char>)
    ensures
        forall|i: int| 0 <= i < sanitized_arg(s).len() ==> !shell_meta_char(#[trigger] sanitized_arg(s)[i]),
        sanitized_arg(s).len() <= s.len(),
        (forall|i: int| 0 <= i < s.len() ==> !shell_meta_char(#[trigger] s[i])) ==> sanitized_arg(s) == s,
        sanitized_arg(sanitized_arg(s)) == sanitized_arg(s),
{
    lemma_meta_removed(s);
    if forall|i: int| 0 <= i < s.len() ==> !shell_meta_char(#[trigger] s[i]) {
        lemma_no_meta_fixed(s);
    }
    lemma_no_meta_fixed(sanitized_arg(s));
}

proof fn lemma_meta_removed(s: Seq<char>)
    ensures
        forall|i: int| 0 <= i < without_shell_meta(s).len() ==> !shell_meta_char(
            #[trigger] without_shell_meta(s)[i],
        ),
        without_shell_meta(s).len() <= s.len(),
    decreases s.len(),
{
    if s.len() > 0 {
        let p = s.drop_last();
        lemma_meta_removed(p);
        let r = without_shell_meta(p);
        if !shell_meta_char(s.last()) {
            assert forall|i: int| 0 <= i < r.push(s.last()).len() implies !shell_meta_char(
                #[trigger] r.push(s.last())[i],
            ) by {
                if i < r.len() {
                    assert(r.push(s.last())[i] == r[i]);
                }
            }
        }
    }
}

proof fn lemma_no_meta_fixed(s: Seq<char>)
    requires
        forall|i: int| 0 <= i < s.len() ==> !shell_meta_char(#[trigger] s[i]),
    ensures
        without_shell_meta(s) == s,
    decreases s.len(),
{
    if s.len() > 0 {
        let p = s.drop_last();
        assert forall|i: int| 0 <= i < p.len() implies !shell_meta_char(#[trigger] p[i]) by {
            assert(p[i] == s[i]);
        }
        lemma_no_meta_fixed(p);
        assert(!shell_meta_char(s[s.len() - 1]));
        assert(p.push(s.last()) =~= s);
    }
}

// ---------------------------------------------------------------------------
// AUR helper commands
// ---------------------------------------------------------------------------

/// The program that installs AUR packages.
#[derive(Debug, Clone, Copy, PartialEq, Eq, Structural)]
pub enum HelperKind {
    Paru,
    Yay,
    Pacman,
}

/// The helper that the configured name selects, or, for any other name,
/// the first of paru and yay that is installed, else pacman.
pub open spec fn detect_spec(configured: Seq<char>, paru_found: bool, yay_found: bool) -> HelperKind {
    if configured == "paru"@ {
        HelperKind::Paru
    } else if configured == "yay"@ {
        HelperKind::Yay
    } else if configured == "pacman"@ {
        HelperKind::Pacman
    } else if paru_found {
        HelperKind::Paru
    } else if yay_found {
        HelperKind::Yay
    } else {
        HelperKind::Pacman
    }
}

/// The command that runs `args` through the helper: paru and yay directly,
/// pacman through sudo.
pub open spec fn helper_command(kind: HelperKind, args: Seq<Seq<char>>) -> (Seq<char>, Seq<Seq<char>>) {
    match kind {
        HelperKind::Paru => ("paru"@, args),
        HelperKind::Yay => ("yay"@, args),
        HelperKind::Pacman => ("sudo"@, seq!["pacman"@] + args),
    }
}

pub open spec fn install_spec(kind: HelperKind, names: Seq<Seq<char>>) -> (Seq<char>, Seq<Seq<char>>) {
    helper_command(kind, seq!["-S"@, "--noconfirm"@] + sanitized_names(names))
}

pub open spec fn remove_spec(names: Seq<Seq<char>>) -> (Seq<char>, Seq<Seq<char>>) {
    ("sudo"@, seq!["pacman"@, "-Rns"@, "--noconfirm"@] + sanitized_names(names))
}

pub open spec fn update_spec(kind: HelperKind) -> (Seq<char>, Seq<Seq<char>>) {
    helper_command(kind, seq!["-Syu"@, "--noconfirm"@])
}

/// The number of fixed arguments before the package names of an install
/// command.
pub open spec fn helper_offset(kind: HelperKind) -> int {
    if kind == HelperKind::Pacman {
        3
    } else {
        2
    }
}

/// In the install, remove and update commands every package argument is
/// the sanitised form of the name given, at its place after the fixed
/// arguments, so it holds only alphanumerics and `@ . _ + -`.
pub proof fn law_command_arguments_sanitized(kind: HelperKind, names: Seq<Seq<char>>)
    ensures
        remove_spec(names).1.len() == 3 + names.len(),
        forall|j: int|
            0 <= j < names.len() ==> #[trigger] remove_spec(names).1[3 + j] == sanitized_name(names[j])
                && only_allowed(remove_spec(names).1[3 + j]),
        install_spec(kind, names).1.len() == helper_offset(kind) + names.len(),
        forall|j: int|
            0 <= j < names.len() ==> #[trigger] install_spec(kind, names).1[helper_offset(kind) + j]
                == sanitized_name(names[j]),
{
    assert forall|j: int| 0 <= j < names.len() implies #[trigger] remove_spec(names).1[3 + j]
        == sanitized_name(names[j]) && only_allowed(remove_spec(names).1[3 + j]) by {
        law_sanitized_name_is_clean(names[j]);
    }
}

/// The index of the first name that is not a valid package name.
pub open spec fn first_invalid(names: Seq<Seq<char>>, k: int) -> bool {
    0 <= k < names.len() && !valid_package_name(names[k]) && forall|j: int|
        0 <= j < k ==> valid_package_name(#[trigger] names[j])
}

/// The result of a validated command: the command when every name is
/// valid, else the message naming the first invalid one.
pub open spec fn validated_spec(names: Seq<Seq<char>>, cmd: (Seq<char>, Seq<Seq<char>>), r: Result<CommandSpec, String>) -> bool {
    match r {
        Ok(c) => (forall|j: int| 0 <= j < names.len() ==> valid_package_name(#[trigger] names[j]))
            && c@ == cmd,
        Err(e) => exists|k: int|
            first_invalid(names, k) && e@ == "Invalid package name: "@ + names[k],
    }
}

/// AUR helper command builder.
pub struct AurHelperCommand {
    helper: HelperKind,
}

/// Appends `s` as an owned string.
fn push_str(args: &mut Vec<String>, s: &str)
    ensures
        final(args).deep_view() == old(args).deep_view().push(s@),
{
    let ghost before = args.deep_view();
    args.push(s.to_owned());
    assert(args.deep_view() =~= before.push(s@));
}

/// Appends the sanitised form of each package name.
fn push_sanitized(args: &mut Vec<String>, packages: &[&str])
    ensures
        final(args).deep_view() == old(args).deep_view() + sanitized_names(strs_view(packages@)),
{
    let ghost start = args.deep_view();
    let mut i: usize = 0;
    while i < packages.len()
        invariant
            i <= packages.len(),
            args.deep_view() == start + sanitized_names(strs_view(packages@).take(i as int)),
        decreases packages.len() - i,
    {
        let s = AurHelperCommand::sanitize_package_name(packages[i]);
        let ghost before = args.deep_view();
        args.push(s);
        assert(sanitized_names(strs_view(packages@).take(i + 1)) =~= sanitized_names(
            strs_view(packages@).take(i as int),
        ).push(sanitized_name(packages@[i as int]@)));
        assert(args.deep_view() =~= before.push(s@));
        i += 1;
    }
    assert(strs_view(packages@).take(packages.len() as int) =~= strs_view(packages@));
}

/// The command for `kind` with `args`.
fn helper_command_exec(kind: HelperKind, args: Vec<String>) -> (r: CommandSpec)
    ensures
        r@ == helper_command(kind, args.deep_view()),
{
    match kind {
        HelperKind::Paru => CommandSpec::new("paru", args),
        HelperKind::Yay => CommandSpec::new("yay", args),
        HelperKind::Pacman => {
            let ghost a = args.deep_view();
            let ghost old_args = args@;
            let mut pacman_args = args;
            let first = "pacman".to_owned();
            pacman_args.insert(0, first);
            assert forall|i: int| 0 <= i < pacman_args@.len() implies pacman_args.deep_view()[i]
                == (seq!["pacman"@] + a)[i] by {
                if i > 0 {
                    assert(pacman_args@[i] == old_args[i - 1]);
                }
            }
            assert(pacman_args.deep_view() =~= seq!["pacman"@] + a);
            CommandSpec::new("sudo", pacman_args)
        },
    }
}

impl AurHelperCommand {
    /// The helper this builder uses.
    pub closed spec fn kind(&self) -> HelperKind {
        self.helper
    }

    /// A builder for the helper that `config` names; where it names none of
    /// paru, yay and pacman, the first of paru and yay found installed
    /// (`paru_found`, `yay_found`), else pacman.
    pub fn new(config: &AppConfig, paru_found: bool, yay_found: bool) -> (r: AurHelperCommand)
        ensures
            r.kind() == detect_spec(config.aur_helper@, paru_found, yay_found),
    {
        AurHelperCommand { helper: Self::detect_helper(config.aur_helper.as_str(), paru_found, yay_found) }
    }

    /// A builder for the given helper.
    pub fn with_kind(kind: HelperKind) -> (r: AurHelperCommand)
        ensures
            r.kind() == kind,
    {
        AurHelperCommand { helper: kind }
    }

    /// The helper this builder uses.
    pub fn helper(&self) -> (r: HelperKind)
        ensures
            r == self.kind(),
    {
        self.helper
    }

    /// Chooses the helper for a configured name.
    pub fn detect_helper(configured: &str, paru_found: bool, yay_found: bool) -> (r: HelperKind)
        ensures
            r == detect_spec(configured@, paru_found, yay_found),
    {
        if str_eq(configured, "paru") {
            HelperKind::Paru
        } else if str_eq(configured, "yay") {
            HelperKind::Yay
        } else if str_eq(configured, "pacman") {
            HelperKind::Pacman
        } else if paru_found {
            HelperKind::Paru
        } else if yay_found {
            HelperKind::Yay
        } else {
            HelperKind::Pacman
        }
    }

    /// Keeps the alphanumeric characters of `name` and `@ . _ + -`.
    pub fn sanitize_package_name(name: &str) -> (r: String)
        ensures
            r@ == sanitized_name(name@),
    {
        let mut r = String::new();
        let mut i: usize = 0;
        let v = crate::text::chars_of(name);
        while i < v.len()
            invariant
                i <= v.len(),
                v@ == name@,
                r@ == sanitized_name(v@.take(i as int)),
            decreases v.len() - i,
        {
            proof {
                crate::text::lemma_take_step(v@, i as int);
            }
            let c = v[i];
            if is_alphanumeric(c) || c == '@' || c == '.' || c == '_' || c == '+' || c == '-' {
                string_push(&mut r, c);
            }
            i += 1;
        }
        assert(v@.take(v.len() as int) =~= v@);
        r
    }

    /// Whether `name` is non-empty and made only of lower-case letters,
    /// digits and `@ . _ + -`, as the regular expression
    /// `^[a-z0-9@._+-]+$` decides.
    pub fn is_valid_package_name(name: &str) -> (r: bool)
        ensures
            r == valid_package_name(name@),
    {
        if name.is_empty() {
            return false;
        }
        match Pattern::compile("^[a-z0-9@._+-]+$") {
            Some(p) => p.is_match(name),
            None => false,
        }
    }

    /// Build install command
    pub fn install_command(&self, packages: &[&str]) -> (r: CommandSpec)
        ensures
            r@ == install_spec(self.kind(), strs_view(packages@)),
    {
        let mut args: Vec<String> = Vec::new();
        push_str(&mut args, "-S");
        push_str(&mut args, "--noconfirm");
        push_sanitized(&mut args, packages);
        helper_command_exec(self.helper, args)
    }

    /// Build remove command
    pub fn remove_command(&self, packages: &[&str]) -> (r: CommandSpec)
        ensures
            r@ == remove_spec(strs_view(packages@)),
    {
        let mut args: Vec<String> = Vec::new();
        push_str(&mut args, "pacman");
        push_str(&mut args, "-Rns");
        push_str(&mut args, "--noconfirm");
        push_sanitized(&mut args, packages);
        CommandSpec::new("sudo", args)
    }

    /// The message for a name that failed validation.
    fn invalid_name_message(name: &str) -> (r: String)
        ensures
            r@ == "Invalid package name: "@ + name@,
    {
        let mut m = "Invalid package name: ".to_owned();
        m.append(name);
        m
    }

    /// The index of the first invalid name, if any.
    fn first_invalid_index(packages: &[&str]) -> (r: Option<usize>)
        ensures
            match r {
                Some(k) => first_invalid(strs_view(packages@), k as int),
                None => forall|j: int|
                    0 <= j < packages@.len() ==> valid_package_name(
                        #[trigger] strs_view(packages@)[j],
                    ),
            },
    {
        let mut i: usize = 0;
        while i < packages.len()
            invariant
                i <= packages.len(),
                forall|j: int| 0 <= j < i ==> valid_package_name(#[trigger] strs_view(packages@)[j]),
            decreases packages.len() - i,
        {
            if !Self::is_valid_package_name(packages[i]) {
                return Some(i);
            }
            i += 1;
        }
        None
    }

    /// Build install command with validation
    pub fn install_command_validated(&self, packages: &[&str]) -> (r: Result<CommandSpec, String>)
        ensures
            validated_spec(strs_view(packages@), install_spec(self.kind(), strs_view(packages@)), r),
    {
        match Self::first_invalid_index(packages) {
            Some(k) => Err(Self::invalid_name_message(packages[k])),
            None => Ok(self.install_command(packages)),
        }
    }

    /// Build remove command with validation
    pub fn remove_command_validated(&self, packages: &[&str]) -> (r: Result<CommandSpec, String>)
        ensures
            validated_spec(strs_view(packages@), remove_spec(strs_view(packages@)), r),
    {
        match Self::first_invalid_index(packages) {
            Some(k) => Err(Self::invalid_name_message(packages[k])),
            None => Ok(self.remove_command(packages)),
        }
    }

    /// Build update command
    pub fn update_command(&self) -> (r: CommandSpec)
        ensures
            r@ == update_spec(self.kind()),
    {
        let mut args: Vec<String> = Vec::new();
        push_str(&mut args, "-Syu");
        push_str(&mut args, "--noconfirm");
        helper_command_exec(self.helper, args)
    }
}

// ---------------------------------------------------------------------------
// Free-form commands
// ---------------------------------------------------------------------------

/// Command builder for safe command execution
pub struct SafeCommandBuilder {
    program: String,
    args: Vec<String>,
}

impl View for SafeCommandBuilder {
    type V = (Seq<char>, Seq<Seq<char>>);

    closed spec fn view(&self) -> (Seq<char>, Seq<Seq<char>>) {
        (self.program@, self.args.deep_view())
    }
}

impl SafeCommandBuilder {
    /// A builder for `program` with no arguments yet.
    pub fn new(program: &str) -> (r: SafeCommandBuilder)
        ensures
            r@ == (program@, Seq::<Seq<char>>::empty()),
    {
        let r = SafeCommandBuilder { program: program.to_owned(), args: Vec::new() };
        assert(r.args.deep_view() =~= Seq::<Seq<char>>::empty());
        r
    }

    /// Sanitize and add an argument
    pub fn arg(self, arg: &str) -> (r: SafeCommandBuilder)
        ensures
            r@ == (self@.0, self@.1.push(sanitized_arg(arg@))),
    {
        let mut s = self;
        let a = Self::sanitize(arg);
        let ghost before = s.args.deep_view();
        s.args.push(a);
        assert(s.args.deep_view() =~= before.push(a@));
        s
    }

    /// Sanitize and add multiple arguments
    pub fn args(self, args: &[&str]) -> (r: SafeCommandBuilder)
        ensures
            r@ == (self@.0, self@.1 + strs_view(args@).map_values(|a: Seq<char>| sanitized_arg(a))),
    {
        let mut s = self;
        let ghost start = s.args.deep_view();
        let mut i: usize = 0;
        while i < args.len()
            invariant
                i <= args.len(),
                s.program@ == self.program@,
                s.args.deep_view() == start + strs_view(args@).take(i as int).map_values(
                    |a: Seq<char>| sanitized_arg(a),
                ),
            decreases args.len() - i,
        {
            let a = Self::sanitize(args[i]);
            let ghost before = s.args.deep_view();
            s.args.push(a);
            assert(strs_view(args@).take(i + 1).map_values(|a: Seq<char>| sanitized_arg(a))
                =~= strs_view(args@).take(i as int).map_values(|a: Seq<char>| sanitized_arg(a)).push(
                sanitized_arg(args@[i as int]@),
            ));
            assert(s.args.deep_view() =~= before.push(a@));
            i += 1;
        }
        assert(strs_view(args@).take(args.len() as int) =~= strs_view(args@));
        s
    }

    /// Build the command string for display
    pub fn build_display(&self) -> (r: String)
        ensures
            r@ == display_spec(self@),
    {
        let mut r = self.program.clone();
        string_push(&mut r, ' ');
        let sep = " ";
        proof {
            reveal_strlit(" ");
            assert(sep@ =~= seq![' ']);
        }
        let rest = join(&self.args, sep);
        r.append(rest.as_str());
        r
    }

    /// Removes the characters `; & | < > $ ` " \n \r \0` (by the regular
    /// expression that lists them) to prevent command injection.
    pub fn sanitize(input: &str) -> (r: String)
        ensures
            r@ == sanitized_arg(input@),
    {
        match Pattern::compile("[;&|<>$`\"\\n\\r\\x00]") {
            Some(p) => {
                let empty = "";
                proof {
                    reveal_strlit("");
                    assert(empty@ =~= Seq::<char>::empty());
                }
                p.replace_all(input, empty)
            },
            None => input.to_owned(),
        }
    }
}

/// What adding `xs` one at a time with `arg` makes of a builder's view.
pub open spec fn arg_chain(v: (Seq<char>, Seq<Seq<char>>), xs: Seq<Seq<char>>) -> (Seq<char>, Seq<Seq<char>>)
    decreases xs.len(),
{
    if xs.len() == 0 {
        v
    } else {
        let w = arg_chain(v, xs.drop_last());
        (w.0, w.1.push(sanitized_arg(xs.last())))
    }
}

/// Adding several arguments at once is adding each one in order: the
/// program stays, and each argument is appended sanitised; no arguments
/// leave the builder as it was.
pub proof fn law_args_is_repeated_arg(v: (Seq<char>, Seq<Seq<char>>), xs: Seq<Seq<char>>)
    ensures
        arg_chain(v, xs) == (v.0, v.1 + xs.map_values(|a: Seq<char>| sanitized_arg(a))),
        arg_chain(v, Seq::empty()) == v,
    decreases xs.len(),
{
    if xs.len() > 0 {
        law_args_is_repeated_arg(v, xs.drop_last());
        assert(xs.map_values(|a: Seq<char>| sanitized_arg(a)) =~= xs.drop_last().map_values(
            |a: Seq<char>| sanitized_arg(a),
        ).push(sanitized_arg(xs.last())));
        assert(v.1 + xs.map_values(|a: Seq<char>| sanitized_arg(a)) =~= (v.1 + xs.drop_last().map_values(
            |a: Seq<char>| sanitized_arg(a),
        )).push(sanitized_arg(xs.last())));
    } else {
        assert(v.1 + xs.map_values(|a: Seq<char>| sanitized_arg(a)) =~= v.1);
    }
}

} // verus!
