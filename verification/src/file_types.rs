//! What the name of a file tells: its icon, and the language it is highlighted in.
use vstd::prelude::*;

use crate::lines::chars_of;
use crate::text::{opt_str, same};

verus! {

/// A character in lower case, where it is a letter of ASCII.
pub open spec fn lower(c: char) -> char {
    if 'A' <= c <= 'Z' {
        (c as u32 + 32) as char
    } else {
        c
    }
}

/// A text in lower case, as far as it is ASCII.
pub open spec fn lowered(s: Seq<char>) -> Seq<char> {
    s.map_values(|c: char| lower(c))
}

/// A text starts with another.
pub open spec fn starts(s: Seq<char>, start: Seq<char>) -> bool {
    start.len() <= s.len() && s.take(start.len() as int) == start
}

/// A text ends with another.
pub open spec fn ends(s: Seq<char>, end: Seq<char>) -> bool {
    end.len() <= s.len() && s.skip(s.len() - end.len()) == end
}

/// A text holds another somewhere.
pub open spec fn holds(s: Seq<char>, part: Seq<char>) -> bool {
    exists|i: int| 0 <= i <= s.len() - part.len() && #[trigger] s.subrange(i, i + part.len()) == part
}

fn lower_char(c: char) -> (r: char)
    ensures
        r == lower(c),
{
    if 'A' <= c && c <= 'Z' {
        (c as u8 + 32) as char
    } else {
        c
    }
}

/// A text in lower case, as far as it is ASCII.
pub fn to_lowercase(s: &str) -> (r: String)
    ensures
        r@ == lowered(s@),
{
    let chars = chars_of(s);
    let mut r = String::new();
    let mut i: usize = 0;
    assert(r@ =~= lowered(s@).take(0));
    while i < chars.len()
        invariant
            i <= chars@.len(),
            chars@ == s@,
            r@ == lowered(s@).take(i as int),
        decreases chars@.len() - i,
    {
        r.push(lower_char(chars[i]));
        assert(r@ =~= lowered(s@).take(i + 1));
        i = i + 1;
    }
    assert(r@ =~= lowered(s@));
    r
}

fn starts_with(s: &str, start: &str) -> (r: bool)
    ensures
        r == starts(s@, start@),
{
    let n: usize = start.unicode_len();
    if n > s.unicode_len() {
        return false;
    }
    let head = s.substring_char(0, n);
    assert(s@.subrange(0, n as int) =~= s@.take(n as int));
    same(head, start)
}

fn ends_with(s: &str, end: &str) -> (r: bool)
    ensures
        r == ends(s@, end@),
{
    let n: usize = end.unicode_len();
    let m: usize = s.unicode_len();
    if n > m {
        return false;
    }
    let tail = s.substring_char(m - n, m);
    assert(s@.subrange(m - n, m as int) =~= s@.skip(m - n));
    same(tail, end)
}

pub(crate) fn contains(s: &str, part: &str) -> (r: bool)
    ensures
        r == holds(s@, part@),
{
    let n: usize = part.unicode_len();
    let m: usize = s.unicode_len();
    if n > m {
        return false;
    }
    let last: usize = m - n;
    let mut i: usize = 0;
    while i < last
        invariant
            n == part@.len(),
            m == s@.len(),
            last == m - n,
            i <= last,
            forall|j: int| 0 <= j < i ==> #[trigger] s@.subrange(j, j + n) != part@,
        decreases last - i,
    {
        if same(s.substring_char(i, i + n), part) {
            assert(s@.subrange(i as int, i + part@.len()) == part@);
            return true;
        }
        i = i + 1;
    }
    if same(s.substring_char(last, m), part) {
        assert(s@.subrange(last as int, last + part@.len()) == part@);
        return true;
    }
    proof {
        if holds(s@, part@) {
            let j = choose|j: int| 0 <= j <= s@.len() - part@.len() && #[trigger] s@.subrange(j, j + part@.len()) == part@;
            assert(s@.subrange(j, j + n) == part@);
        }
    }
    false
}

/// What follows the last slash of a path. Paths within a workspace are written with slashes
/// on every platform.
pub open spec fn after_slash(path: Seq<char>) -> Seq<char>
    decreases path.len(),
{
    if path.len() == 0 || path.last() == '/' {
        Seq::empty()
    } else {
        after_slash(path.drop_last()).push(path.last())
    }
}

/// The name of the file that a path leads to: its last part that is a name. Slashes and
/// dots at its end do not count; a path that leads upwards has none.
pub open spec fn base_name(path: Seq<char>) -> Option<Seq<char>>
    decreases path.len(),
{
    if path.len() == 0 {
        None
    } else if path.last() == '/' {
        base_name(path.drop_last())
    } else {
        let name = after_slash(path);
        if name == seq!['.'] {
            base_name(path.drop_last())
        } else if name == seq!['.', '.'] {
            None
        } else {
            Some(name)
        }
    }
}

/// Where the last dot of a name stands.
pub open spec fn last_dot(name: Seq<char>) -> Option<int>
    decreases name.len(),
{
    if name.len() == 0 {
        None
    } else if name.last() == '.' {
        Some(name.len() - 1)
    } else {
        last_dot(name.drop_last())
    }
}

/// The extension of a name: what follows its last dot, unless it is the first character.
pub open spec fn extension(name: Seq<char>) -> Option<Seq<char>> {
    match last_dot(name) {
        Some(i) if i > 0 => Some(name.skip(i + 1)),
        _ => None,
    }
}

/// What follows the last slash of a path.
pub fn slash_tail(path: &str) -> (r: &str)
    ensures
        r@ == after_slash(path@),
{
    let n: usize = path.unicode_len();
    let i = slash_end(path, n);
    let r = path.substring_char(i, n);
    assert(path@.take(n as int) =~= path@);
    r
}

/// Where what follows the last slash among the first `n` characters starts.
fn slash_end(path: &str, n: usize) -> (r: usize)
    requires
        n <= path@.len(),
    ensures
        r <= n,
        path@.subrange(r as int, n as int) == after_slash(path@.take(n as int)),
{
    let mut i: usize = n;
    assert(path@.subrange(n as int, n as int) =~= Seq::empty());
    assert(after_slash(path@.take(n as int)) =~= after_slash(path@.take(n as int)) + path@.subrange(n as int, n as int));
    while i > 0 && path.get_char(i - 1) != '/'
        invariant
            i <= n <= path@.len(),
            after_slash(path@.take(n as int)) == after_slash(path@.take(i as int)) + path@.subrange(i as int, n as int),
        decreases i,
    {
        assert(path@.take(i as int).drop_last() =~= path@.take(i - 1));
        assert(path@.take(i as int).last() == path@[i - 1]);
        assert(after_slash(path@.take(i as int)) + path@.subrange(i as int, n as int) =~= after_slash(path@.take(i - 1))
            + path@.subrange(i - 1, n as int));
        i = i - 1;
    }
    assert(after_slash(path@.take(n as int)) =~= path@.subrange(i as int, n as int));
    i
}

/// The name of the file that a path leads to.
pub fn name_of(path: &str) -> (r: Option<&str>)
    ensures
        opt_str(r) == base_name(path@),
{
    let mut n: usize = path.unicode_len();
    let whole: usize = n;
    assert(path@.take(n as int) =~= path@);
    while n > 0
        invariant
            n <= whole == path@.len(),
            base_name(path@) == base_name(path@.take(n as int)),
        decreases n,
    {
        let ghost head = path@.take(n as int);
        assert(head.drop_last() =~= path@.take(n - 1));
        assert(head.last() == path@[n - 1]);
        if path.get_char(n - 1) != '/' {
            let start = slash_end(path, n);
            assert(after_slash(head).len() == n - start);
            if n - start == 1 && path.get_char(start) == '.' {
                assert(after_slash(head) =~= seq!['.']);
            } else {
                proof {
                    if after_slash(head) == seq!['.'] {
                        assert(after_slash(head)[0] == path@[start as int]);
                    }
                }
                if n - start == 2 && path.get_char(start) == '.' && path.get_char(start + 1) == '.' {
                    assert(after_slash(head) =~= seq!['.', '.']);
                    return None;
                }
                proof {
                    if after_slash(head) == seq!['.', '.'] {
                        assert(after_slash(head)[0] == path@[start as int]);
                        assert(after_slash(head)[1] == path@[start + 1]);
                    }
                }
                return Some(path.substring_char(start, n));
            }
        }
        n = n - 1;
    }
    None
}

/// The extension of a name.
pub fn extension_of(name: &str) -> (r: Option<&str>)
    ensures
        opt_str(r) == extension(name@),
{
    let n: usize = name.unicode_len();
    let mut i: usize = n;
    assert(name@.take(n as int) =~= name@);
    while i > 0 && name.get_char(i - 1) != '.'
        invariant
            i <= n == name@.len(),
            last_dot(name@) == last_dot(name@.take(i as int)),
        decreases i,
    {
        assert(name@.take(i as int).drop_last() =~= name@.take(i - 1));
        assert(name@.take(i as int).last() == name@[i - 1]);
        i = i - 1;
    }
    proof {
        if i > 0 {
            assert(name@.take(i as int).last() == name@[i - 1]);
        }
    }
    if i <= 1 {
        return None;
    }
    let r = name.substring_char(i, n);
    assert(r@ =~= name@.skip(i as int));
    Some(r)
}

/// The icon of a file that belongs to a project as a whole or to its packages.
pub open spec fn project_file_spec(name: Seq<char>) -> Option<Seq<char>> {
    if starts(name, "readme"@) {
        Some("icons/file-types/readme.svg"@)
    } else if starts(name, "license"@) || starts(name, "licence"@) || starts(name, "copying"@) {
        Some("icons/file-types/certificate.svg"@)
    } else if starts(name, "dockerfile"@) || starts(name, "compose."@) {
        Some("icons/file-types/docker.svg"@)
    } else if name == "cmakelists.txt"@ || starts(name, "cmake."@) {
        Some("icons/file-types/cmake.svg"@)
    } else if name == "makefile"@ || starts(name, "makefile."@) || name == "justfile"@ {
        Some("icons/file-types/makefile.svg"@)
    } else if name == "cargo.toml"@ || name == "cargo.lock"@ || name == "rust-toolchain.toml"@ {
        Some("icons/file-types/rust.svg"@)
    } else if name == "go.mod"@ || name == "go.sum"@ || name == "go.work"@ {
        Some("icons/file-types/go.svg"@)
    } else if name == "pyproject.toml"@ || name == "pipfile"@ || starts(name, "requirements"@) {
        Some("icons/file-types/python.svg"@)
    } else if name == "bun.lock"@ || name == "bun.lockb"@ || name == "bunfig.toml"@ {
        Some("icons/file-types/bun.svg"@)
    } else if starts(name, "pnpm-"@) || name == ".pnpmfile.cjs"@ {
        Some("icons/file-types/pnpm.svg"@)
    } else if name == "yarn.lock"@ || starts(name, ".yarnrc"@) {
        Some("icons/file-types/yarn.svg"@)
    } else if name == "package.json"@ {
        Some("icons/file-types/nodejs.svg"@)
    } else if name == "package-lock.json"@ {
        Some("icons/file-types/npm.svg"@)
    } else if starts(name, "tsconfig."@) || name == "tsconfig.json"@ {
        Some("icons/file-types/typescript.svg"@)
    } else {
        None
    }
}

fn project_file(name: &str) -> (r: Option<&'static str>)
    ensures
        opt_str(r) == project_file_spec(name@),
{
    if starts_with(name, "readme") {
        Some("icons/file-types/readme.svg")
    } else if starts_with(name, "license") || starts_with(name, "licence") || starts_with(name, "copying") {
        Some("icons/file-types/certificate.svg")
    } else if starts_with(name, "dockerfile") || starts_with(name, "compose.") {
        Some("icons/file-types/docker.svg")
    } else if same(name, "cmakelists.txt") || starts_with(name, "cmake.") {
        Some("icons/file-types/cmake.svg")
    } else if same(name, "makefile") || starts_with(name, "makefile.") || same(name, "justfile") {
        Some("icons/file-types/makefile.svg")
    } else if same(name, "cargo.toml") || same(name, "cargo.lock") || same(name, "rust-toolchain.toml") {
        Some("icons/file-types/rust.svg")
    } else if same(name, "go.mod") || same(name, "go.sum") || same(name, "go.work") {
        Some("icons/file-types/go.svg")
    } else if same(name, "pyproject.toml") || same(name, "pipfile") || starts_with(name, "requirements") {
        Some("icons/file-types/python.svg")
    } else if same(name, "bun.lock") || same(name, "bun.lockb") || same(name, "bunfig.toml") {
        Some("icons/file-types/bun.svg")
    } else if starts_with(name, "pnpm-") || same(name, ".pnpmfile.cjs") {
        Some("icons/file-types/pnpm.svg")
    } else if same(name, "yarn.lock") || starts_with(name, ".yarnrc") {
        Some("icons/file-types/yarn.svg")
    } else if same(name, "package.json") {
        Some("icons/file-types/nodejs.svg")
    } else if same(name, "package-lock.json") {
        Some("icons/file-types/npm.svg")
    } else if starts_with(name, "tsconfig.") || same(name, "tsconfig.json") {
        Some("icons/file-types/typescript.svg")
    } else {
        None
    }
}

/// The icon of a file that sets up a tool.
pub open spec fn tool_file_spec(name: Seq<char>) -> Option<Seq<char>> {
    if starts(name, "jsconfig."@) || name == "jsconfig.json"@ {
        Some("icons/file-types/javascript.svg"@)
    } else if name == ".gitignore"@ || name == ".gitattributes"@ || name == ".gitmodules"@ || name == ".gitconfig"@ {
        Some("icons/file-types/git.svg"@)
    } else if name == ".editorconfig"@ {
        Some("icons/file-types/editorconfig.svg"@)
    } else if starts(name, ".env"@) {
        Some("icons/file-types/settings.svg"@)
    } else if starts(name, ".prettier"@) || starts(name, "prettier.config."@) {
        Some("icons/file-types/prettier.svg"@)
    } else if starts(name, ".eslint"@) || starts(name, "eslint.config."@) {
        Some("icons/file-types/eslint.svg"@)
    } else if starts(name, "biome.json"@) {
        Some("icons/file-types/biome.svg"@)
    } else if starts(name, ".babel"@) || starts(name, "babel.config."@) {
        Some("icons/file-types/babel.svg"@)
    } else if starts(name, ".stylelint"@) || starts(name, "stylelint.config."@) {
        Some("icons/file-types/stylelint.svg"@)
    } else if starts(name, "vite.config."@) {
        Some("icons/file-types/vite.svg"@)
    } else if starts(name, "vitest.config."@) || starts(name, "vitest.workspace."@) {
        Some("icons/file-types/vitest.svg"@)
    } else if starts(name, "webpack."@) {
        Some("icons/file-types/webpack.svg"@)
    } else if starts(name, "rollup.config."@) {
        Some("icons/file-types/rollup.svg"@)
    } else if starts(name, "next.config."@) {
        Some("icons/file-types/next.svg"@)
    } else {
        None
    }
}

fn tool_file(name: &str) -> (r: Option<&'static str>)
    ensures
        opt_str(r) == tool_file_spec(name@),
{
    if starts_with(name, "jsconfig.") || same(name, "jsconfig.json") {
        Some("icons/file-types/javascript.svg")
    } else if same(name, ".gitignore") || same(name, ".gitattributes") || same(name, ".gitmodules") || same(name, ".gitconfig") {
        Some("icons/file-types/git.svg")
    } else if same(name, ".editorconfig") {
        Some("icons/file-types/editorconfig.svg")
    } else if starts_with(name, ".env") {
        Some("icons/file-types/settings.svg")
    } else if starts_with(name, ".prettier") || starts_with(name, "prettier.config.") {
        Some("icons/file-types/prettier.svg")
    } else if starts_with(name, ".eslint") || starts_with(name, "eslint.config.") {
        Some("icons/file-types/eslint.svg")
    } else if starts_with(name, "biome.json") {
        Some("icons/file-types/biome.svg")
    } else if starts_with(name, ".babel") || starts_with(name, "babel.config.") {
        Some("icons/file-types/babel.svg")
    } else if starts_with(name, ".stylelint") || starts_with(name, "stylelint.config.") {
        Some("icons/file-types/stylelint.svg")
    } else if starts_with(name, "vite.config.") {
        Some("icons/file-types/vite.svg")
    } else if starts_with(name, "vitest.config.") || starts_with(name, "vitest.workspace.") {
        Some("icons/file-types/vitest.svg")
    } else if starts_with(name, "webpack.") {
        Some("icons/file-types/webpack.svg")
    } else if starts_with(name, "rollup.config.") {
        Some("icons/file-types/rollup.svg")
    } else if starts_with(name, "next.config.") {
        Some("icons/file-types/next.svg")
    } else {
        None
    }
}

/// The icon of a file that sets up a framework.
pub open spec fn framework_file_spec(name: Seq<char>) -> Option<Seq<char>> {
    if name == "next-env.d.ts"@ {
        Some("icons/file-types/next.svg"@)
    } else if starts(name, "nuxt.config."@) || name == ".nuxtrc"@ {
        Some("icons/file-types/nuxt.svg"@)
    } else if starts(name, "astro.config."@) {
        Some("icons/file-types/astro.svg"@)
    } else if name == "angular.json"@ || ends(name, ".component.ts"@) {
        Some("icons/file-types/angular.svg"@)
    } else if name == "nest-cli.json"@ {
        Some("icons/file-types/nest.svg"@)
    } else if starts(name, "tailwind.config."@) {
        Some("icons/file-types/tailwindcss.svg"@)
    } else if starts(name, "svelte.config."@) {
        Some("icons/file-types/svelte.svg"@)
    } else if starts(name, "vue.config."@) {
        Some("icons/file-types/vue.svg"@)
    } else if name == "firebase.json"@ || name == ".firebaserc"@ {
        Some("icons/file-types/firebase.svg"@)
    } else if name == "supabase.toml"@ {
        Some("icons/file-types/supabase.svg"@)
    } else if starts(name, "prisma.config."@) {
        Some("icons/file-types/prisma.svg"@)
    } else if name == "turbo.json"@ {
        Some("icons/file-types/turborepo.svg"@)
    } else if starts(name, "deno.json"@) || name == "deno.lock"@ {
        Some("icons/file-types/deno.svg"@)
    } else if name == ".gitlab-ci.yml"@ || name == ".gitlab-ci.yaml"@ {
        Some("icons/file-types/gitlab.svg"@)
    } else {
        None
    }
}

fn framework_file(name: &str) -> (r: Option<&'static str>)
    ensures
        opt_str(r) == framework_file_spec(name@),
{
    if same(name, "next-env.d.ts") {
        Some("icons/file-types/next.svg")
    } else if starts_with(name, "nuxt.config.") || same(name, ".nuxtrc") {
        Some("icons/file-types/nuxt.svg")
    } else if starts_with(name, "astro.config.") {
        Some("icons/file-types/astro.svg")
    } else if same(name, "angular.json") || ends_with(name, ".component.ts") {
        Some("icons/file-types/angular.svg")
    } else if same(name, "nest-cli.json") {
        Some("icons/file-types/nest.svg")
    } else if starts_with(name, "tailwind.config.") {
        Some("icons/file-types/tailwindcss.svg")
    } else if starts_with(name, "svelte.config.") {
        Some("icons/file-types/svelte.svg")
    } else if starts_with(name, "vue.config.") {
        Some("icons/file-types/vue.svg")
    } else if same(name, "firebase.json") || same(name, ".firebaserc") {
        Some("icons/file-types/firebase.svg")
    } else if same(name, "supabase.toml") {
        Some("icons/file-types/supabase.svg")
    } else if starts_with(name, "prisma.config.") {
        Some("icons/file-types/prisma.svg")
    } else if same(name, "turbo.json") {
        Some("icons/file-types/turborepo.svg")
    } else if starts_with(name, "deno.json") || same(name, "deno.lock") {
        Some("icons/file-types/deno.svg")
    } else if same(name, ".gitlab-ci.yml") || same(name, ".gitlab-ci.yaml") {
        Some("icons/file-types/gitlab.svg")
    } else {
        None
    }
}

/// The icon of a file that sets up a platform or a build.
pub open spec fn platform_file_spec(name: Seq<char>) -> Option<Seq<char>> {
    if name == "kustomization.yaml"@ || name == "kustomization.yml"@ {
        Some("icons/file-types/kubernetes.svg"@)
    } else if name == "chart.yaml"@ || name == "values.yaml"@ {
        Some("icons/file-types/helm.svg"@)
    } else if name == "nginx.conf"@ {
        Some("icons/file-types/nginx.svg"@)
    } else if name == ".nvmrc"@ || name == ".node-version"@ {
        Some("icons/file-types/nodejs.svg"@)
    } else if name == "build.gradle"@ || name == "settings.gradle"@ || name == "gradlew"@ || name == "gradlew.bat"@ {
        Some("icons/file-types/gradle.svg"@)
    } else if holds(name, ".stories."@) || holds(name, ".story."@) {
        Some("icons/file-types/storybook.svg"@)
    } else if name == "gemfile"@ || name == "gemfile.lock"@ {
        Some("icons/file-types/ruby.svg"@)
    } else if name == "pom.xml"@ {
        Some("icons/file-types/java.svg"@)
    } else {
        None
    }
}

fn platform_file(name: &str) -> (r: Option<&'static str>)
    ensures
        opt_str(r) == platform_file_spec(name@),
{
    if same(name, "kustomization.yaml") || same(name, "kustomization.yml") {
        Some("icons/file-types/kubernetes.svg")
    } else if same(name, "chart.yaml") || same(name, "values.yaml") {
        Some("icons/file-types/helm.svg")
    } else if same(name, "nginx.conf") {
        Some("icons/file-types/nginx.svg")
    } else if same(name, ".nvmrc") || same(name, ".node-version") {
        Some("icons/file-types/nodejs.svg")
    } else if same(name, "build.gradle") || same(name, "settings.gradle") || same(name, "gradlew") || same(name, "gradlew.bat") {
        Some("icons/file-types/gradle.svg")
    } else if contains(name, ".stories.") || contains(name, ".story.") {
        Some("icons/file-types/storybook.svg")
    } else if same(name, "gemfile") || same(name, "gemfile.lock") {
        Some("icons/file-types/ruby.svg")
    } else if same(name, "pom.xml") {
        Some("icons/file-types/java.svg")
    } else {
        None
    }
}

/// The icon of a file with the extension of a common language.
pub open spec fn language_extension_spec(name: Seq<char>) -> Option<Seq<char>> {
    if name == "rs"@ {
        Some("icons/file-types/rust.svg"@)
    } else if name == "js"@ || name == "mjs"@ || name == "cjs"@ {
        Some("icons/file-types/javascript.svg"@)
    } else if name == "ts"@ || name == "mts"@ || name == "cts"@ {
        Some("icons/file-types/typescript.svg"@)
    } else if name == "jsx"@ || name == "tsx"@ {
        Some("icons/file-types/react.svg"@)
    } else if name == "py"@ || name == "pyi"@ || name == "pyw"@ {
        Some("icons/file-types/python.svg"@)
    } else if name == "go"@ {
        Some("icons/file-types/go.svg"@)
    } else if name == "c"@ || name == "h"@ || name == "m"@ {
        Some("icons/file-types/c.svg"@)
    } else if name == "cc"@ || name == "cpp"@ || name == "cxx"@ || name == "hh"@ || name == "hpp"@ || name == "hxx"@ || name == "mm"@ {
        Some("icons/file-types/cpp.svg"@)
    } else if name == "cs"@ {
        Some("icons/file-types/csharp.svg"@)
    } else if name == "swift"@ {
        Some("icons/file-types/swift.svg"@)
    } else if name == "kt"@ || name == "kts"@ {
        Some("icons/file-types/kotlin.svg"@)
    } else if name == "java"@ || name == "class"@ {
        Some("icons/file-types/java.svg"@)
    } else if name == "rb"@ {
        Some("icons/file-types/ruby.svg"@)
    } else if name == "php"@ {
        Some("icons/file-types/php.svg"@)
    } else if name == "html"@ || name == "htm"@ {
        Some("icons/file-types/html.svg"@)
    } else if name == "css"@ || name == "less"@ {
        Some("icons/file-types/css.svg"@)
    } else {
        None
    }
}

fn language_extension(name: &str) -> (r: Option<&'static str>)
    ensures
        opt_str(r) == language_extension_spec(name@),
{
    if same(name, "rs") {
        Some("icons/file-types/rust.svg")
    } else if same(name, "js") || same(name, "mjs") || same(name, "cjs") {
        Some("icons/file-types/javascript.svg")
    } else if same(name, "ts") || same(name, "mts") || same(name, "cts") {
        Some("icons/file-types/typescript.svg")
    } else if same(name, "jsx") || same(name, "tsx") {
        Some("icons/file-types/react.svg")
    } else if same(name, "py") || same(name, "pyi") || same(name, "pyw") {
        Some("icons/file-types/python.svg")
    } else if same(name, "go") {
        Some("icons/file-types/go.svg")
    } else if same(name, "c") || same(name, "h") || same(name, "m") {
        Some("icons/file-types/c.svg")
    } else if same(name, "cc") || same(name, "cpp") || same(name, "cxx") || same(name, "hh") || same(name, "hpp") || same(name, "hxx") || same(name, "mm") {
        Some("icons/file-types/cpp.svg")
    } else if same(name, "cs") {
        Some("icons/file-types/csharp.svg")
    } else if same(name, "swift") {
        Some("icons/file-types/swift.svg")
    } else if same(name, "kt") || same(name, "kts") {
        Some("icons/file-types/kotlin.svg")
    } else if same(name, "java") || same(name, "class") {
        Some("icons/file-types/java.svg")
    } else if same(name, "rb") {
        Some("icons/file-types/ruby.svg")
    } else if same(name, "php") {
        Some("icons/file-types/php.svg")
    } else if same(name, "html") || same(name, "htm") {
        Some("icons/file-types/html.svg")
    } else if same(name, "css") || same(name, "less") {
        Some("icons/file-types/css.svg")
    } else {
        None
    }
}

/// The icon of a file with the extension of a style sheet, a format of data or text, a script,
/// a medium or an archive.
pub open spec fn format_extension_spec(name: Seq<char>) -> Option<Seq<char>> {
    if name == "scss"@ || name == "sass"@ {
        Some("icons/file-types/sass.svg"@)
    } else if name == "json"@ || name == "jsonc"@ || name == "jsonl"@ {
        Some("icons/file-types/json.svg"@)
    } else if name == "yaml"@ || name == "yml"@ {
        Some("icons/file-types/yaml.svg"@)
    } else if name == "toml"@ || name == "ini"@ || name == "cfg"@ || name == "conf"@ || name == "config"@ {
        Some("icons/file-types/settings.svg"@)
    } else if name == "xml"@ || name == "xsl"@ || name == "plist"@ {
        Some("icons/file-types/xml.svg"@)
    } else if name == "md"@ || name == "mdx"@ || name == "markdown"@ {
        Some("icons/file-types/markdown.svg"@)
    } else if name == "sh"@ || name == "bash"@ || name == "zsh"@ || name == "fish"@ {
        Some("icons/file-types/console.svg"@)
    } else if name == "ps1"@ || name == "psm1"@ {
        Some("icons/file-types/powershell.svg"@)
    } else if name == "sql"@ || name == "db"@ || name == "sqlite"@ || name == "sqlite3"@ || name == "csv"@ || name == "xls"@ || name == "xlsx"@ {
        Some("icons/file-types/database.svg"@)
    } else if name == "png"@ || name == "jpg"@ || name == "jpeg"@ || name == "gif"@ || name == "webp"@ || name == "avif"@ || name == "ico"@ || name == "tiff"@ {
        Some("icons/file-types/image.svg"@)
    } else if name == "svg"@ {
        Some("icons/file-types/svg.svg"@)
    } else if name == "pdf"@ {
        Some("icons/file-types/pdf.svg"@)
    } else if name == "mp3"@ || name == "wav"@ || name == "flac"@ || name == "ogg"@ || name == "m4a"@ {
        Some("icons/file-types/audio.svg"@)
    } else if name == "mp4"@ || name == "mov"@ || name == "avi"@ || name == "webm"@ || name == "mkv"@ {
        Some("icons/file-types/video.svg"@)
    } else if name == "zip"@ || name == "gz"@ || name == "tgz"@ || name == "bz2"@ || name == "xz"@ || name == "7z"@ || name == "rar"@ || name == "tar"@ || name == "jar"@ {
        Some("icons/file-types/zip.svg"@)
    } else if name == "wasm"@ || name == "wat"@ {
        Some("icons/file-types/webassembly.svg"@)
    } else {
        None
    }
}

fn format_extension(name: &str) -> (r: Option<&'static str>)
    ensures
        opt_str(r) == format_extension_spec(name@),
{
    if same(name, "scss") || same(name, "sass") {
        Some("icons/file-types/sass.svg")
    } else if same(name, "json") || same(name, "jsonc") || same(name, "jsonl") {
        Some("icons/file-types/json.svg")
    } else if same(name, "yaml") || same(name, "yml") {
        Some("icons/file-types/yaml.svg")
    } else if same(name, "toml") || same(name, "ini") || same(name, "cfg") || same(name, "conf") || same(name, "config") {
        Some("icons/file-types/settings.svg")
    } else if same(name, "xml") || same(name, "xsl") || same(name, "plist") {
        Some("icons/file-types/xml.svg")
    } else if same(name, "md") || same(name, "mdx") || same(name, "markdown") {
        Some("icons/file-types/markdown.svg")
    } else if same(name, "sh") || same(name, "bash") || same(name, "zsh") || same(name, "fish") {
        Some("icons/file-types/console.svg")
    } else if same(name, "ps1") || same(name, "psm1") {
        Some("icons/file-types/powershell.svg")
    } else if same(name, "sql") || same(name, "db") || same(name, "sqlite") || same(name, "sqlite3") || same(name, "csv") || same(name, "xls") || same(name, "xlsx") {
        Some("icons/file-types/database.svg")
    } else if same(name, "png") || same(name, "jpg") || same(name, "jpeg") || same(name, "gif") || same(name, "webp") || same(name, "avif") || same(name, "ico") || same(name, "tiff") {
        Some("icons/file-types/image.svg")
    } else if same(name, "svg") {
        Some("icons/file-types/svg.svg")
    } else if same(name, "pdf") {
        Some("icons/file-types/pdf.svg")
    } else if same(name, "mp3") || same(name, "wav") || same(name, "flac") || same(name, "ogg") || same(name, "m4a") {
        Some("icons/file-types/audio.svg")
    } else if same(name, "mp4") || same(name, "mov") || same(name, "avi") || same(name, "webm") || same(name, "mkv") {
        Some("icons/file-types/video.svg")
    } else if same(name, "zip") || same(name, "gz") || same(name, "tgz") || same(name, "bz2") || same(name, "xz") || same(name, "7z") || same(name, "rar") || same(name, "tar") || same(name, "jar") {
        Some("icons/file-types/zip.svg")
    } else if same(name, "wasm") || same(name, "wat") {
        Some("icons/file-types/webassembly.svg")
    } else {
        None
    }
}

/// The icon of a file with the extension of a component, a template or a further language.
pub open spec fn further_extension_spec(name: Seq<char>) -> Option<Seq<char>> {
    if name == "svelte"@ {
        Some("icons/file-types/svelte.svg"@)
    } else if name == "vue"@ {
        Some("icons/file-types/vue.svg"@)
    } else if name == "tf"@ || name == "tfvars"@ {
        Some("icons/file-types/terraform.svg"@)
    } else if name == "graphql"@ || name == "gql"@ {
        Some("icons/file-types/graphql.svg"@)
    } else if name == "lua"@ {
        Some("icons/file-types/lua.svg"@)
    } else if name == "dart"@ {
        Some("icons/file-types/dart.svg"@)
    } else if name == "astro"@ {
        Some("icons/file-types/astro.svg"@)
    } else if name == "coffee"@ || name == "cson"@ {
        Some("icons/file-types/coffee.svg"@)
    } else if name == "cr"@ {
        Some("icons/file-types/crystal.svg"@)
    } else if name == "ex"@ || name == "exs"@ {
        Some("icons/file-types/elixir.svg"@)
    } else if name == "elm"@ {
        Some("icons/file-types/elm.svg"@)
    } else if name == "erl"@ || name == "hrl"@ {
        Some("icons/file-types/erlang.svg"@)
    } else if name == "clj"@ || name == "cljs"@ || name == "cljc"@ || name == "edn"@ {
        Some("icons/file-types/clojure.svg"@)
    } else if name == "hs"@ || name == "lhs"@ {
        Some("icons/file-types/haskell.svg"@)
    } else if name == "hx"@ || name == "hxml"@ {
        Some("icons/file-types/haxe.svg"@)
    } else if name == "jinja"@ || name == "jinja2"@ || name == "j2"@ {
        Some("icons/file-types/jinja.svg"@)
    } else {
        None
    }
}

fn further_extension(name: &str) -> (r: Option<&'static str>)
    ensures
        opt_str(r) == further_extension_spec(name@),
{
    if same(name, "svelte") {
        Some("icons/file-types/svelte.svg")
    } else if same(name, "vue") {
        Some("icons/file-types/vue.svg")
    } else if same(name, "tf") || same(name, "tfvars") {
        Some("icons/file-types/terraform.svg")
    } else if same(name, "graphql") || same(name, "gql") {
        Some("icons/file-types/graphql.svg")
    } else if same(name, "lua") {
        Some("icons/file-types/lua.svg")
    } else if same(name, "dart") {
        Some("icons/file-types/dart.svg")
    } else if same(name, "astro") {
        Some("icons/file-types/astro.svg")
    } else if same(name, "coffee") || same(name, "cson") {
        Some("icons/file-types/coffee.svg")
    } else if same(name, "cr") {
        Some("icons/file-types/crystal.svg")
    } else if same(name, "ex") || same(name, "exs") {
        Some("icons/file-types/elixir.svg")
    } else if same(name, "elm") {
        Some("icons/file-types/elm.svg")
    } else if same(name, "erl") || same(name, "hrl") {
        Some("icons/file-types/erlang.svg")
    } else if same(name, "clj") || same(name, "cljs") || same(name, "cljc") || same(name, "edn") {
        Some("icons/file-types/clojure.svg")
    } else if same(name, "hs") || same(name, "lhs") {
        Some("icons/file-types/haskell.svg")
    } else if same(name, "hx") || same(name, "hxml") {
        Some("icons/file-types/haxe.svg")
    } else if same(name, "jinja") || same(name, "jinja2") || same(name, "j2") {
        Some("icons/file-types/jinja.svg")
    } else {
        None
    }
}

/// The icon of a file with another extension that is known.
pub open spec fn other_extension_spec(name: Seq<char>) -> Option<Seq<char>> {
    if name == "jl"@ {
        Some("icons/file-types/julia.svg"@)
    } else if name == "ml"@ || name == "mli"@ {
        Some("icons/file-types/ocaml.svg"@)
    } else if name == "pl"@ || name == "pm"@ {
        Some("icons/file-types/perl.svg"@)
    } else if name == "prisma"@ {
        Some("icons/file-types/prisma.svg"@)
    } else if name == "pug"@ || name == "jade"@ {
        Some("icons/file-types/pug.svg"@)
    } else if name == "scala"@ || name == "sbt"@ || name == "sc"@ {
        Some("icons/file-types/scala.svg"@)
    } else if name == "sol"@ {
        Some("icons/file-types/solidity.svg"@)
    } else if name == "tex"@ || name == "sty"@ || name == "cls"@ {
        Some("icons/file-types/tex.svg"@)
    } else if name == "xaml"@ {
        Some("icons/file-types/xaml.svg"@)
    } else if name == "zig"@ {
        Some("icons/file-types/zig.svg"@)
    } else if name == "nix"@ {
        Some("icons/file-types/nix.svg"@)
    } else if name == "proto"@ {
        Some("icons/file-types/proto.svg"@)
    } else if name == "diff"@ || name == "patch"@ {
        Some("icons/file-types/diff.svg"@)
    } else if name == "exe"@ || name == "dll"@ || name == "so"@ || name == "dylib"@ {
        Some("icons/file-types/exe.svg"@)
    } else if name == "lock"@ {
        Some("icons/file-types/lock.svg"@)
    } else {
        None
    }
}

fn other_extension(name: &str) -> (r: Option<&'static str>)
    ensures
        opt_str(r) == other_extension_spec(name@),
{
    if same(name, "jl") {
        Some("icons/file-types/julia.svg")
    } else if same(name, "ml") || same(name, "mli") {
        Some("icons/file-types/ocaml.svg")
    } else if same(name, "pl") || same(name, "pm") {
        Some("icons/file-types/perl.svg")
    } else if same(name, "prisma") {
        Some("icons/file-types/prisma.svg")
    } else if same(name, "pug") || same(name, "jade") {
        Some("icons/file-types/pug.svg")
    } else if same(name, "scala") || same(name, "sbt") || same(name, "sc") {
        Some("icons/file-types/scala.svg")
    } else if same(name, "sol") {
        Some("icons/file-types/solidity.svg")
    } else if same(name, "tex") || same(name, "sty") || same(name, "cls") {
        Some("icons/file-types/tex.svg")
    } else if same(name, "xaml") {
        Some("icons/file-types/xaml.svg")
    } else if same(name, "zig") {
        Some("icons/file-types/zig.svg")
    } else if same(name, "nix") {
        Some("icons/file-types/nix.svg")
    } else if same(name, "proto") {
        Some("icons/file-types/proto.svg")
    } else if same(name, "diff") || same(name, "patch") {
        Some("icons/file-types/diff.svg")
    } else if same(name, "exe") || same(name, "dll") || same(name, "so") || same(name, "dylib") {
        Some("icons/file-types/exe.svg")
    } else if same(name, "lock") {
        Some("icons/file-types/lock.svg")
    } else {
        None
    }
}

/// The language of a lockfile, which its extension does not tell.
pub open spec fn lockfile_language_spec(name: Seq<char>) -> Option<Seq<char>> {
    if name == "bun.lock"@ || name == "composer.lock"@ || name == "conan.lock"@ || name == "deno.lock"@ || name == "flake.lock"@ || name == "npm-shrinkwrap.json"@ || name == "package-lock.json"@ || name == "package.resolved"@ || name == "packages.lock.json"@ || name == "pipfile.lock"@ {
        Some("json"@)
    } else if name == "cargo.lock"@ || name == "pdm.lock"@ || name == "poetry.lock"@ || name == "uv.lock"@ {
        Some("toml"@)
    } else if name == "chart.lock"@ || name == "gemfile.lock"@ || name == "pnpm-lock.yaml"@ || name == "podfile.lock"@ || name == "pubspec.lock"@ || name == "yarn.lock"@ {
        Some("yaml"@)
    } else if name == "mix.lock"@ {
        Some("elixir"@)
    } else {
        None
    }
}

fn lockfile_language(name: &str) -> (r: Option<&'static str>)
    ensures
        opt_str(r) == lockfile_language_spec(name@),
{
    if same(name, "bun.lock") || same(name, "composer.lock") || same(name, "conan.lock") || same(name, "deno.lock") || same(name, "flake.lock") || same(name, "npm-shrinkwrap.json") || same(name, "package-lock.json") || same(name, "package.resolved") || same(name, "packages.lock.json") || same(name, "pipfile.lock") {
        Some("json")
    } else if same(name, "cargo.lock") || same(name, "pdm.lock") || same(name, "poetry.lock") || same(name, "uv.lock") {
        Some("toml")
    } else if same(name, "chart.lock") || same(name, "gemfile.lock") || same(name, "pnpm-lock.yaml") || same(name, "podfile.lock") || same(name, "pubspec.lock") || same(name, "yarn.lock") {
        Some("yaml")
    } else if same(name, "mix.lock") {
        Some("elixir")
    } else {
        None
    }
}

/// The language of a file by its extension.
pub open spec fn extension_language_spec(name: Seq<char>) -> Option<Seq<char>> {
    if name == "rs"@ {
        Some("rust"@)
    } else if name == "ts"@ || name == "mts"@ || name == "cts"@ {
        Some("typescript"@)
    } else if name == "tsx"@ {
        Some("tsx"@)
    } else if name == "js"@ || name == "jsx"@ || name == "mjs"@ || name == "cjs"@ {
        Some("javascript"@)
    } else if name == "py"@ || name == "pyi"@ {
        Some("python"@)
    } else if name == "go"@ {
        Some("go"@)
    } else if name == "c"@ {
        Some("c"@)
    } else if name == "h"@ || name == "hpp"@ || name == "hh"@ || name == "hxx"@ || name == "cc"@ || name == "cpp"@ || name == "cxx"@ {
        Some("cpp"@)
    } else if name == "m"@ || name == "mm"@ {
        Some("objc"@)
    } else if name == "java"@ || name == "kt"@ || name == "kts"@ {
        Some("java"@)
    } else if name == "cs"@ {
        Some("csharp"@)
    } else if name == "scala"@ || name == "sc"@ {
        Some("scala"@)
    } else if name == "rb"@ || name == "rake"@ || name == "gemspec"@ {
        Some("ruby"@)
    } else if name == "swift"@ {
        Some("swift"@)
    } else if name == "json"@ || name == "jsonc"@ || name == "json5"@ {
        Some("json"@)
    } else if name == "yaml"@ || name == "yml"@ {
        Some("yaml"@)
    } else if name == "toml"@ {
        Some("toml"@)
    } else if name == "ini"@ || name == "cfg"@ || name == "conf"@ {
        Some("ini"@)
    } else if name == "sh"@ || name == "bash"@ || name == "zsh"@ || name == "fish"@ {
        Some("bash"@)
    } else if name == "css"@ || name == "scss"@ || name == "sass"@ || name == "less"@ {
        Some("css"@)
    } else if name == "html"@ || name == "htm"@ || name == "xml"@ || name == "svg"@ || name == "vue"@ || name == "svelte"@ {
        Some("html"@)
    } else if name == "sql"@ {
        Some("sql"@)
    } else if name == "diff"@ || name == "patch"@ {
        Some("diff"@)
    } else if name == "md"@ || name == "markdown"@ || name == "mdx"@ {
        Some("markdown"@)
    } else {
        None
    }
}

fn extension_language(name: &str) -> (r: Option<&'static str>)
    ensures
        opt_str(r) == extension_language_spec(name@),
{
    if same(name, "rs") {
        Some("rust")
    } else if same(name, "ts") || same(name, "mts") || same(name, "cts") {
        Some("typescript")
    } else if same(name, "tsx") {
        Some("tsx")
    } else if same(name, "js") || same(name, "jsx") || same(name, "mjs") || same(name, "cjs") {
        Some("javascript")
    } else if same(name, "py") || same(name, "pyi") {
        Some("python")
    } else if same(name, "go") {
        Some("go")
    } else if same(name, "c") {
        Some("c")
    } else if same(name, "h") || same(name, "hpp") || same(name, "hh") || same(name, "hxx") || same(name, "cc") || same(name, "cpp") || same(name, "cxx") {
        Some("cpp")
    } else if same(name, "m") || same(name, "mm") {
        Some("objc")
    } else if same(name, "java") || same(name, "kt") || same(name, "kts") {
        Some("java")
    } else if same(name, "cs") {
        Some("csharp")
    } else if same(name, "scala") || same(name, "sc") {
        Some("scala")
    } else if same(name, "rb") || same(name, "rake") || same(name, "gemspec") {
        Some("ruby")
    } else if same(name, "swift") {
        Some("swift")
    } else if same(name, "json") || same(name, "jsonc") || same(name, "json5") {
        Some("json")
    } else if same(name, "yaml") || same(name, "yml") {
        Some("yaml")
    } else if same(name, "toml") {
        Some("toml")
    } else if same(name, "ini") || same(name, "cfg") || same(name, "conf") {
        Some("ini")
    } else if same(name, "sh") || same(name, "bash") || same(name, "zsh") || same(name, "fish") {
        Some("bash")
    } else if same(name, "css") || same(name, "scss") || same(name, "sass") || same(name, "less") {
        Some("css")
    } else if same(name, "html") || same(name, "htm") || same(name, "xml") || same(name, "svg") || same(name, "vue") || same(name, "svelte") {
        Some("html")
    } else if same(name, "sql") {
        Some("sql")
    } else if same(name, "diff") || same(name, "patch") {
        Some("diff")
    } else if same(name, "md") || same(name, "markdown") || same(name, "mdx") {
        Some("markdown")
    } else {
        None
    }
}

/// The first of several answers that is one.
pub open spec fn first_of(a: Option<Seq<char>>, b: Option<Seq<char>>) -> Option<Seq<char>> {
    match a {
        Some(x) => Some(x),
        None => b,
    }
}

/// The icon of a file whose name stands for itself.
pub open spec fn named_icon(name: Seq<char>) -> Option<Seq<char>> {
    first_of(
        project_file_spec(name),
        first_of(tool_file_spec(name), first_of(framework_file_spec(name), platform_file_spec(name))),
    )
}

/// The icon of a file with an extension.
pub open spec fn extension_icon(extension: Seq<char>) -> Option<Seq<char>> {
    first_of(
        language_extension_spec(extension),
        first_of(
            format_extension_spec(extension),
            first_of(further_extension_spec(extension), other_extension_spec(extension)),
        ),
    )
}

/// The extension of the file that a path leads to.
pub open spec fn path_extension(path: Seq<char>) -> Option<Seq<char>> {
    match base_name(path) {
        Some(name) => extension(name),
        None => None,
    }
}

/// The icon of a file: by its name, else by its extension, else that of any file. Case does
/// not matter.
pub open spec fn icon_for(name: Seq<char>) -> Seq<char> {
    let low = lowered(name);
    match named_icon(low) {
        Some(icon) => icon,
        None => {
            let extension = match path_extension(low) {
                Some(extension) => extension,
                None => Seq::empty(),
            };
            match extension_icon(extension) {
                Some(icon) => icon,
                None => "icons/file-types/file.svg"@,
            }
        },
    }
}

fn find_named_icon(name: &str) -> (r: Option<&'static str>)
    ensures
        opt_str(r) == named_icon(name@),
{
    if let Some(icon) = project_file(name) {
        return Some(icon);
    }
    if let Some(icon) = tool_file(name) {
        return Some(icon);
    }
    if let Some(icon) = framework_file(name) {
        return Some(icon);
    }
    platform_file(name)
}

fn find_extension_icon(extension: &str) -> (r: Option<&'static str>)
    ensures
        opt_str(r) == extension_icon(extension@),
{
    if let Some(icon) = language_extension(extension) {
        return Some(icon);
    }
    if let Some(icon) = format_extension(extension) {
        return Some(icon);
    }
    if let Some(icon) = further_extension(extension) {
        return Some(icon);
    }
    other_extension(extension)
}

fn find_path_extension(path: &str) -> (r: Option<&str>)
    ensures
        opt_str(r) == path_extension(path@),
{
    match name_of(path) {
        Some(name) => extension_of(name),
        None => None,
    }
}

/// The icon of a file, by its name.
pub fn file_icon_for_name(name: &str) -> (r: &'static str)
    ensures
        r@ == icon_for(name@),
{
    let low = to_lowercase(name);
    if let Some(icon) = find_named_icon(low.as_str()) {
        return icon;
    }
    let found = match find_path_extension(low.as_str()) {
        Some(extension) => find_extension_icon(extension),
        None => {
            let none = String::new();
            assert(none@ =~= Seq::empty());
            find_extension_icon(none.as_str())
        },
    };
    match found {
        Some(icon) => icon,
        None => "icons/file-types/file.svg",
    }
}

/// The icon of the file that a path leads to.
pub open spec fn path_icon(path: Seq<char>) -> Seq<char> {
    match base_name(path) {
        Some(name) => icon_for(name),
        None => icon_for(path),
    }
}

/// The icon of the file that a path leads to.
pub fn file_icon_for_path(path: &str) -> (r: &'static str)
    ensures
        r@ == path_icon(path@),
{
    match name_of(path) {
        Some(name) => file_icon_for_name(name),
        None => file_icon_for_name(path),
    }
}

/// The language that a file is highlighted in: that of a lockfile, of a makefile or of a
/// recipe for an image by its name, else by its extension.
pub open spec fn language_for(path: Seq<char>) -> Seq<char> {
    let name = match base_name(path) {
        Some(name) => name,
        None => Seq::empty(),
    };
    let low = lowered(name);
    match lockfile_language_spec(low) {
        Some(language) => language,
        None => if name == "Makefile"@ || starts(name, "Makefile."@) {
            "make"@
        } else if low == "dockerfile"@ || starts(low, "dockerfile."@) {
            "dockerfile"@
        } else {
            match path_extension(path) {
                Some(extension) => match extension_language_spec(lowered(extension)) {
                    Some(language) => language,
                    None => "text"@,
                },
                None => "text"@,
            }
        },
    }
}

/// The language that a file is highlighted in.
pub fn file_highlighter_language(relative_path: &str) -> (r: &'static str)
    ensures
        r@ == language_for(relative_path@),
{
    let none = String::new();
    assert(none@ =~= Seq::empty());
    let name = match name_of(relative_path) {
        Some(name) => name,
        None => none.as_str(),
    };
    let low = to_lowercase(name);
    if let Some(language) = lockfile_language(low.as_str()) {
        return language;
    }
    if same(name, "Makefile") || starts_with(name, "Makefile.") {
        return "make";
    }
    if same(low.as_str(), "dockerfile") || starts_with(low.as_str(), "dockerfile.") {
        return "dockerfile";
    }
    match find_path_extension(relative_path) {
        Some(extension) => {
            let low_extension = to_lowercase(extension);
            match extension_language(low_extension.as_str()) {
                Some(language) => language,
                None => "text",
            }
        },
        None => "text",
    }
}

/// The case of a file's name does not change its icon.
pub proof fn icons_ignore_case(name: Seq<char>)
    ensures
        icon_for(lowered(name)) == icon_for(name),
{
    assert(lowered(lowered(name)) =~= lowered(name)) by {
        assert forall|i: int| 0 <= i < name.len() implies lower(lower(#[trigger] name[i])) == lower(name[i]) by {}
    }
}

} // verus!
