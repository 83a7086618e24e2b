//! Where the icons of files stand.
use vstd::prelude::*;

use crate::file_types::{
    ends, extension_icon, format_extension_spec, framework_file_spec, further_extension_spec, icon_for,
    language_extension_spec, named_icon, other_extension_spec, path_icon, platform_file_spec, project_file_spec,
    starts, tool_file_spec,
};

verus! {

/// A picture that stands where the icons of files do.
pub open spec fn is_file_icon(icon: Seq<char>) -> bool {
    starts(icon, "icons/file-types/"@) && ends(icon, ".svg"@)
}

/// What is found, if anything is, is an icon of a file.
pub open spec fn finds_file_icon(icon: Option<Seq<char>>) -> bool {
    match icon {
        Some(icon) => is_file_icon(icon),
        None => true,
    }
}

proof fn lemma_shape(icon: Seq<char>, stem: Seq<char>)
    requires
        icon =~= "icons/file-types/"@ + stem + ".svg"@,
    ensures
        is_file_icon(icon),
{
    assert(icon.take("icons/file-types/"@.len() as int) =~= "icons/file-types/"@);
    assert(icon.skip(icon.len() - ".svg"@.len()) =~= ".svg"@);
}

proof fn lemma_project_file(name: Seq<char>)
    ensures
        finds_file_icon(project_file_spec(name)),
{
    assert(is_file_icon("icons/file-types/readme.svg"@)) by {
        reveal_strlit("icons/file-types/");
        reveal_strlit(".svg");
        reveal_strlit("readme");
        reveal_strlit("icons/file-types/readme.svg");
        lemma_shape("icons/file-types/readme.svg"@, "readme"@);
    }
    assert(is_file_icon("icons/file-types/certificate.svg"@)) by {
        reveal_strlit("icons/file-types/");
        reveal_strlit(".svg");
        reveal_strlit("certificate");
        reveal_strlit("icons/file-types/certificate.svg");
        lemma_shape("icons/file-types/certificate.svg"@, "certificate"@);
    }
    assert(is_file_icon("icons/file-types/docker.svg"@)) by {
        reveal_strlit("icons/file-types/");
        reveal_strlit(".svg");
        reveal_strlit("docker");
        reveal_strlit("icons/file-types/docker.svg");
        lemma_shape("icons/file-types/docker.svg"@, "docker"@);
    }
    assert(is_file_icon("icons/file-types/cmake.svg"@)) by {
        reveal_strlit("icons/file-types/");
        reveal_strlit(".svg");
        reveal_strlit("cmake");
        reveal_strlit("icons/file-types/cmake.svg");
        lemma_shape("icons/file-types/cmake.svg"@, "cmake"@);
    }
    assert(is_file_icon("icons/file-types/makefile.svg"@)) by {
        reveal_strlit("icons/file-types/");
        reveal_strlit(".svg");
        reveal_strlit("makefile");
        reveal_strlit("icons/file-types/makefile.svg");
        lemma_shape("icons/file-types/makefile.svg"@, "makefile"@);
    }
    assert(is_file_icon("icons/file-types/rust.svg"@)) by {
        reveal_strlit("icons/file-types/");
        reveal_strlit(".svg");
        reveal_strlit("rust");
        reveal_strlit("icons/file-types/rust.svg");
        lemma_shape("icons/file-types/rust.svg"@, "rust"@);
    }
    assert(is_file_icon("icons/file-types/go.svg"@)) by {
        reveal_strlit("icons/file-types/");
        reveal_strlit(".svg");
        reveal_strlit("go");
        reveal_strlit("icons/file-types/go.svg");
        lemma_shape("icons/file-types/go.svg"@, "go"@);
    }
    assert(is_file_icon("icons/file-types/python.svg"@)) by {
        reveal_strlit("icons/file-types/");
        reveal_strlit(".svg");
        reveal_strlit("python");
        reveal_strlit("icons/file-types/python.svg");
        lemma_shape("icons/file-types/python.svg"@, "python"@);
    }
    assert(is_file_icon("icons/file-types/bun.svg"@)) by {
        reveal_strlit("icons/file-types/");
        reveal_strlit(".svg");
        reveal_strlit("bun");
        reveal_strlit("icons/file-types/bun.svg");
        lemma_shape("icons/file-types/bun.svg"@, "bun"@);
    }
    assert(is_file_icon("icons/file-types/pnpm.svg"@)) by {
        reveal_strlit("icons/file-types/");
        reveal_strlit(".svg");
        reveal_strlit("pnpm");
        reveal_strlit("icons/file-types/pnpm.svg");
        lemma_shape("icons/file-types/pnpm.svg"@, "pnpm"@);
    }
    assert(is_file_icon("icons/file-types/yarn.svg"@)) by {
        reveal_strlit("icons/file-types/");
        reveal_strlit(".svg");
        reveal_strlit("yarn");
        reveal_strlit("icons/file-types/yarn.svg");
        lemma_shape("icons/file-types/yarn.svg"@, "yarn"@);
    }
    assert(is_file_icon("icons/file-types/nodejs.svg"@)) by {
        reveal_strlit("icons/file-types/");
        reveal_strlit(".svg");
        reveal_strlit("nodejs");
        reveal_strlit("icons/file-types/nodejs.svg");
        lemma_shape("icons/file-types/nodejs.svg"@, "nodejs"@);
    }
    assert(is_file_icon("icons/file-types/npm.svg"@)) by {
        reveal_strlit("icons/file-types/");
        reveal_strlit(".svg");
        reveal_strlit("npm");
        reveal_strlit("icons/file-types/npm.svg");
        lemma_shape("icons/file-types/npm.svg"@, "npm"@);
    }
    assert(is_file_icon("icons/file-types/typescript.svg"@)) by {
        reveal_strlit("icons/file-types/");
        reveal_strlit(".svg");
        reveal_strlit("typescript");
        reveal_strlit("icons/file-types/typescript.svg");
        lemma_shape("icons/file-types/typescript.svg"@, "typescript"@);
    }
}

proof fn lemma_tool_file(name: Seq<char>)
    ensures
        finds_file_icon(tool_file_spec(name)),
{
    assert(is_file_icon("icons/file-types/javascript.svg"@)) by {
        reveal_strlit("icons/file-types/");
        reveal_strlit(".svg");
        reveal_strlit("javascript");
        reveal_strlit("icons/file-types/javascript.svg");
        lemma_shape("icons/file-types/javascript.svg"@, "javascript"@);
    }
    assert(is_file_icon("icons/file-types/git.svg"@)) by {
        reveal_strlit("icons/file-types/");
        reveal_strlit(".svg");
        reveal_strlit("git");
        reveal_strlit("icons/file-types/git.svg");
        lemma_shape("icons/file-types/git.svg"@, "git"@);
    }
    assert(is_file_icon("icons/file-types/editorconfig.svg"@)) by {
        reveal_strlit("icons/file-types/");
        reveal_strlit(".svg");
        reveal_strlit("editorconfig");
        reveal_strlit("icons/file-types/editorconfig.svg");
        lemma_shape("icons/file-types/editorconfig.svg"@, "editorconfig"@);
    }
    assert(is_file_icon("icons/file-types/settings.svg"@)) by {
        reveal_strlit("icons/file-types/");
        reveal_strlit(".svg");
        reveal_strlit("settings");
        reveal_strlit("icons/file-types/settings.svg");
        lemma_shape("icons/file-types/settings.svg"@, "settings"@);
    }
    assert(is_file_icon("icons/file-types/prettier.svg"@)) by {
        reveal_strlit("icons/file-types/");
        reveal_strlit(".svg");
        reveal_strlit("prettier");
        reveal_strlit("icons/file-types/prettier.svg");
        lemma_shape("icons/file-types/prettier.svg"@, "prettier"@);
    }
    assert(is_file_icon("icons/file-types/eslint.svg"@)) by {
        reveal_strlit("icons/file-types/");
        reveal_strlit(".svg");
        reveal_strlit("eslint");
        reveal_strlit("icons/file-types/eslint.svg");
        lemma_shape("icons/file-types/eslint.svg"@, "eslint"@);
    }
    assert(is_file_icon("icons/file-types/biome.svg"@)) by {
        reveal_strlit("icons/file-types/");
        reveal_strlit(".svg");
        reveal_strlit("biome");
        reveal_strlit("icons/file-types/biome.svg");
        lemma_shape("icons/file-types/biome.svg"@, "biome"@);
    }
    assert(is_file_icon("icons/file-types/babel.svg"@)) by {
        reveal_strlit("icons/file-types/");
        reveal_strlit(".svg");
        reveal_strlit("babel");
        reveal_strlit("icons/file-types/babel.svg");
        lemma_shape("icons/file-types/babel.svg"@, "babel"@);
    }
    assert(is_file_icon("icons/file-types/stylelint.svg"@)) by {
        reveal_strlit("icons/file-types/");
        reveal_strlit(".svg");
        reveal_strlit("stylelint");
        reveal_strlit("icons/file-types/stylelint.svg");
        lemma_shape("icons/file-types/stylelint.svg"@, "stylelint"@);
    }
    assert(is_file_icon("icons/file-types/vite.svg"@)) by {
        reveal_strlit("icons/file-types/");
        reveal_strlit(".svg");
        reveal_strlit("vite");
        reveal_strlit("icons/file-types/vite.svg");
        lemma_shape("icons/file-types/vite.svg"@, "vite"@);
    }
    assert(is_file_icon("icons/file-types/vitest.svg"@)) by {
        reveal_strlit("icons/file-types/");
        reveal_strlit(".svg");
        reveal_strlit("vitest");
        reveal_strlit("icons/file-types/vitest.svg");
        lemma_shape("icons/file-types/vitest.svg"@, "vitest"@);
    }
    assert(is_file_icon("icons/file-types/webpack.svg"@)) by {
        reveal_strlit("icons/file-types/");
        reveal_strlit(".svg");
        reveal_strlit("webpack");
        reveal_strlit("icons/file-types/webpack.svg");
        lemma_shape("icons/file-types/webpack.svg"@, "webpack"@);
    }
    assert(is_file_icon("icons/file-types/rollup.svg"@)) by {
        reveal_strlit("icons/file-types/");
        reveal_strlit(".svg");
        reveal_strlit("rollup");
        reveal_strlit("icons/file-types/rollup.svg");
        lemma_shape("icons/file-types/rollup.svg"@, "rollup"@);
    }
    assert(is_file_icon("icons/file-types/next.svg"@)) by {
        reveal_strlit("icons/file-types/");
        reveal_strlit(".svg");
        reveal_strlit("next");
        reveal_strlit("icons/file-types/next.svg");
        lemma_shape("icons/file-types/next.svg"@, "next"@);
    }
}

proof fn lemma_framework_file(name: Seq<char>)
    ensures
        finds_file_icon(framework_file_spec(name)),
{
    assert(is_file_icon("icons/file-types/next.svg"@)) by {
        reveal_strlit("icons/file-types/");
        reveal_strlit(".svg");
        reveal_strlit("next");
        reveal_strlit("icons/file-types/next.svg");
        lemma_shape("icons/file-types/next.svg"@, "next"@);
    }
    assert(is_file_icon("icons/file-types/nuxt.svg"@)) by {
        reveal_strlit("icons/file-types/");
        reveal_strlit(".svg");
        reveal_strlit("nuxt");
        reveal_strlit("icons/file-types/nuxt.svg");
        lemma_shape("icons/file-types/nuxt.svg"@, "nuxt"@);
    }
    assert(is_file_icon("icons/file-types/astro.svg"@)) by {
        reveal_strlit("icons/file-types/");
        reveal_strlit(".svg");
        reveal_strlit("astro");
        reveal_strlit("icons/file-types/astro.svg");
        lemma_shape("icons/file-types/astro.svg"@, "astro"@);
    }
    assert(is_file_icon("icons/file-types/angular.svg"@)) by {
        reveal_strlit("icons/file-types/");
        reveal_strlit(".svg");
        reveal_strlit("angular");
        reveal_strlit("icons/file-types/angular.svg");
        lemma_shape("icons/file-types/angular.svg"@, "angular"@);
    }
    assert(is_file_icon("icons/file-types/nest.svg"@)) by {
        reveal_strlit("icons/file-types/");
        reveal_strlit(".svg");
        reveal_strlit("nest");
        reveal_strlit("icons/file-types/nest.svg");
        lemma_shape("icons/file-types/nest.svg"@, "nest"@);
    }
    assert(is_file_icon("icons/file-types/tailwindcss.svg"@)) by {
        reveal_strlit("icons/file-types/");
        reveal_strlit(".svg");
        reveal_strlit("tailwindcss");
        reveal_strlit("icons/file-types/tailwindcss.svg");
        lemma_shape("icons/file-types/tailwindcss.svg"@, "tailwindcss"@);
    }
    assert(is_file_icon("icons/file-types/svelte.svg"@)) by {
        reveal_strlit("icons/file-types/");
        reveal_strlit(".svg");
        reveal_strlit("svelte");
        reveal_strlit("icons/file-types/svelte.svg");
        lemma_shape("icons/file-types/svelte.svg"@, "svelte"@);
    }
    assert(is_file_icon("icons/file-types/vue.svg"@)) by {
        reveal_strlit("icons/file-types/");
        reveal_strlit(".svg");
        reveal_strlit("vue");
        reveal_strlit("icons/file-types/vue.svg");
        lemma_shape("icons/file-types/vue.svg"@, "vue"@);
    }
    assert(is_file_icon("icons/file-types/firebase.svg"@)) by {
        reveal_strlit("icons/file-types/");
        reveal_strlit(".svg");
        reveal_strlit("firebase");
        reveal_strlit("icons/file-types/firebase.svg");
        lemma_shape("icons/file-types/firebase.svg"@, "firebase"@);
    }
    assert(is_file_icon("icons/file-types/supabase.svg"@)) by {
        reveal_strlit("icons/file-types/");
        reveal_strlit(".svg");
        reveal_strlit("supabase");
        reveal_strlit("icons/file-types/supabase.svg");
        lemma_shape("icons/file-types/supabase.svg"@, "supabase"@);
    }
    assert(is_file_icon("icons/file-types/prisma.svg"@)) by {
        reveal_strlit("icons/file-types/");
        reveal_strlit(".svg");
        reveal_strlit("prisma");
        reveal_strlit("icons/file-types/prisma.svg");
        lemma_shape("icons/file-types/prisma.svg"@, "prisma"@);
    }
    assert(is_file_icon("icons/file-types/turborepo.svg"@)) by {
        reveal_strlit("icons/file-types/");
        reveal_strlit(".svg");
        reveal_strlit("turborepo");
        reveal_strlit("icons/file-types/turborepo.svg");
        lemma_shape("icons/file-types/turborepo.svg"@, "turborepo"@);
    }
    assert(is_file_icon("icons/file-types/deno.svg"@)) by {
        reveal_strlit("icons/file-types/");
        reveal_strlit(".svg");
        reveal_strlit("deno");
        reveal_strlit("icons/file-types/deno.svg");
        lemma_shape("icons/file-types/deno.svg"@, "deno"@);
    }
    assert(is_file_icon("icons/file-types/gitlab.svg"@)) by {
        reveal_strlit("icons/file-types/");
        reveal_strlit(".svg");
        reveal_strlit("gitlab");
        reveal_strlit("icons/file-types/gitlab.svg");
        lemma_shape("icons/file-types/gitlab.svg"@, "gitlab"@);
    }
}

proof fn lemma_platform_file(name: Seq<char>)
    ensures
        finds_file_icon(platform_file_spec(name)),
{
    assert(is_file_icon("icons/file-types/kubernetes.svg"@)) by {
        reveal_strlit("icons/file-types/");
        reveal_strlit(".svg");
        reveal_strlit("kubernetes");
        reveal_strlit("icons/file-types/kubernetes.svg");
        lemma_shape("icons/file-types/kubernetes.svg"@, "kubernetes"@);
    }
    assert(is_file_icon("icons/file-types/helm.svg"@)) by {
        reveal_strlit("icons/file-types/");
        reveal_strlit(".svg");
        reveal_strlit("helm");
        reveal_strlit("icons/file-types/helm.svg");
        lemma_shape("icons/file-types/helm.svg"@, "helm"@);
    }
    assert(is_file_icon("icons/file-types/nginx.svg"@)) by {
        reveal_strlit("icons/file-types/");
        reveal_strlit(".svg");
        reveal_strlit("nginx");
        reveal_strlit("icons/file-types/nginx.svg");
        lemma_shape("icons/file-types/nginx.svg"@, "nginx"@);
    }
    assert(is_file_icon("icons/file-types/nodejs.svg"@)) by {
        reveal_strlit("icons/file-types/");
        reveal_strlit(".svg");
        reveal_strlit("nodejs");
        reveal_strlit("icons/file-types/nodejs.svg");
        lemma_shape("icons/file-types/nodejs.svg"@, "nodejs"@);
    }
    assert(is_file_icon("icons/file-types/gradle.svg"@)) by {
        reveal_strlit("icons/file-types/");
        reveal_strlit(".svg");
        reveal_strlit("gradle");
        reveal_strlit("icons/file-types/gradle.svg");
        lemma_shape("icons/file-types/gradle.svg"@, "gradle"@);
    }
    assert(is_file_icon("icons/file-types/storybook.svg"@)) by {
        reveal_strlit("icons/file-types/");
        reveal_strlit(".svg");
        reveal_strlit("storybook");
        reveal_strlit("icons/file-types/storybook.svg");
        lemma_shape("icons/file-types/storybook.svg"@, "storybook"@);
    }
    assert(is_file_icon("icons/file-types/ruby.svg"@)) by {
        reveal_strlit("icons/file-types/");
        reveal_strlit(".svg");
        reveal_strlit("ruby");
        reveal_strlit("icons/file-types/ruby.svg");
        lemma_shape("icons/file-types/ruby.svg"@, "ruby"@);
    }
    assert(is_file_icon("icons/file-types/java.svg"@)) by {
        reveal_strlit("icons/file-types/");
        reveal_strlit(".svg");
        reveal_strlit("java");
        reveal_strlit("icons/file-types/java.svg");
        lemma_shape("icons/file-types/java.svg"@, "java"@);
    }
}

proof fn lemma_language_extension(name: Seq<char>)
    ensures
        finds_file_icon(language_extension_spec(name)),
{
    assert(is_file_icon("icons/file-types/rust.svg"@)) by {
        reveal_strlit("icons/file-types/");
        reveal_strlit(".svg");
        reveal_strlit("rust");
        reveal_strlit("icons/file-types/rust.svg");
        lemma_shape("icons/file-types/rust.svg"@, "rust"@);
    }
    assert(is_file_icon("icons/file-types/javascript.svg"@)) by {
        reveal_strlit("icons/file-types/");
        reveal_strlit(".svg");
        reveal_strlit("javascript");
        reveal_strlit("icons/file-types/javascript.svg");
        lemma_shape("icons/file-types/javascript.svg"@, "javascript"@);
    }
    assert(is_file_icon("icons/file-types/typescript.svg"@)) by {
        reveal_strlit("icons/file-types/");
        reveal_strlit(".svg");
        reveal_strlit("typescript");
        reveal_strlit("icons/file-types/typescript.svg");
        lemma_shape("icons/file-types/typescript.svg"@, "typescript"@);
    }
    assert(is_file_icon("icons/file-types/react.svg"@)) by {
        reveal_strlit("icons/file-types/");
        reveal_strlit(".svg");
        reveal_strlit("react");
        reveal_strlit("icons/file-types/react.svg");
        lemma_shape("icons/file-types/react.svg"@, "react"@);
    }
    assert(is_file_icon("icons/file-types/python.svg"@)) by {
        reveal_strlit("icons/file-types/");
        reveal_strlit(".svg");
        reveal_strlit("python");
        reveal_strlit("icons/file-types/python.svg");
        lemma_shape("icons/file-types/python.svg"@, "python"@);
    }
    assert(is_file_icon("icons/file-types/go.svg"@)) by {
        reveal_strlit("icons/file-types/");
        reveal_strlit(".svg");
        reveal_strlit("go");
        reveal_strlit("icons/file-types/go.svg");
        lemma_shape("icons/file-types/go.svg"@, "go"@);
    }
    assert(is_file_icon("icons/file-types/c.svg"@)) by {
        reveal_strlit("icons/file-types/");
        reveal_strlit(".svg");
        reveal_strlit("c");
        reveal_strlit("icons/file-types/c.svg");
        lemma_shape("icons/file-types/c.svg"@, "c"@);
    }
    assert(is_file_icon("icons/file-types/cpp.svg"@)) by {
        reveal_strlit("icons/file-types/");
        reveal_strlit(".svg");
        reveal_strlit("cpp");
        reveal_strlit("icons/file-types/cpp.svg");
        lemma_shape("icons/file-types/cpp.svg"@, "cpp"@);
    }
    assert(is_file_icon("icons/file-types/csharp.svg"@)) by {
        reveal_strlit("icons/file-types/");
        reveal_strlit(".svg");
        reveal_strlit("csharp");
        reveal_strlit("icons/file-types/csharp.svg");
        lemma_shape("icons/file-types/csharp.svg"@, "csharp"@);
    }
    assert(is_file_icon("icons/file-types/swift.svg"@)) by {
        reveal_strlit("icons/file-types/");
        reveal_strlit(".svg");
        reveal_strlit("swift");
        reveal_strlit("icons/file-types/swift.svg");
        lemma_shape("icons/file-types/swift.svg"@, "swift"@);
    }
    assert(is_file_icon("icons/file-types/kotlin.svg"@)) by {
        reveal_strlit("icons/file-types/");
        reveal_strlit(".svg");
        reveal_strlit("kotlin");
        reveal_strlit("icons/file-types/kotlin.svg");
        lemma_shape("icons/file-types/kotlin.svg"@, "kotlin"@);
    }
    assert(is_file_icon("icons/file-types/java.svg"@)) by {
        reveal_strlit("icons/file-types/");
        reveal_strlit(".svg");
        reveal_strlit("java");
        reveal_strlit("icons/file-types/java.svg");
        lemma_shape("icons/file-types/java.svg"@, "java"@);
    }
    assert(is_file_icon("icons/file-types/ruby.svg"@)) by {
        reveal_strlit("icons/file-types/");
        reveal_strlit(".svg");
        reveal_strlit("ruby");
        reveal_strlit("icons/file-types/ruby.svg");
        lemma_shape("icons/file-types/ruby.svg"@, "ruby"@);
    }
    assert(is_file_icon("icons/file-types/php.svg"@)) by {
        reveal_strlit("icons/file-types/");
        reveal_strlit(".svg");
        reveal_strlit("php");
        reveal_strlit("icons/file-types/php.svg");
        lemma_shape("icons/file-types/php.svg"@, "php"@);
    }
    assert(is_file_icon("icons/file-types/html.svg"@)) by {
        reveal_strlit("icons/file-types/");
        reveal_strlit(".svg");
        reveal_strlit("html");
        reveal_strlit("icons/file-types/html.svg");
        lemma_shape("icons/file-types/html.svg"@, "html"@);
    }
    assert(is_file_icon("icons/file-types/css.svg"@)) by {
        reveal_strlit("icons/file-types/");
        reveal_strlit(".svg");
        reveal_strlit("css");
        reveal_strlit("icons/file-types/css.svg");
        lemma_shape("icons/file-types/css.svg"@, "css"@);
    }
}

proof fn lemma_format_extension(name: Seq<char>)
    ensures
        finds_file_icon(format_extension_spec(name)),
{
    assert(is_file_icon("icons/file-types/sass.svg"@)) by {
        reveal_strlit("icons/file-types/");
        reveal_strlit(".svg");
        reveal_strlit("sass");
        reveal_strlit("icons/file-types/sass.svg");
        lemma_shape("icons/file-types/sass.svg"@, "sass"@);
    }
    assert(is_file_icon("icons/file-types/json.svg"@)) by {
        reveal_strlit("icons/file-types/");
        reveal_strlit(".svg");
        reveal_strlit("json");
        reveal_strlit("icons/file-types/json.svg");
        lemma_shape("icons/file-types/json.svg"@, "json"@);
    }
    assert(is_file_icon("icons/file-types/yaml.svg"@)) by {
        reveal_strlit("icons/file-types/");
        reveal_strlit(".svg");
        reveal_strlit("yaml");
        reveal_strlit("icons/file-types/yaml.svg");
        lemma_shape("icons/file-types/yaml.svg"@, "yaml"@);
    }
    assert(is_file_icon("icons/file-types/settings.svg"@)) by {
        reveal_strlit("icons/file-types/");
        reveal_strlit(".svg");
        reveal_strlit("settings");
        reveal_strlit("icons/file-types/settings.svg");
        lemma_shape("icons/file-types/settings.svg"@, "settings"@);
    }
    assert(is_file_icon("icons/file-types/xml.svg"@)) by {
        reveal_strlit("icons/file-types/");
        reveal_strlit(".svg");
        reveal_strlit("xml");
        reveal_strlit("icons/file-types/xml.svg");
        lemma_shape("icons/file-types/xml.svg"@, "xml"@);
    }
    assert(is_file_icon("icons/file-types/markdown.svg"@)) by {
        reveal_strlit("icons/file-types/");
        reveal_strlit(".svg");
        reveal_strlit("markdown");
        reveal_strlit("icons/file-types/markdown.svg");
        lemma_shape("icons/file-types/markdown.svg"@, "markdown"@);
    }
    assert(is_file_icon("icons/file-types/console.svg"@)) by {
        reveal_strlit("icons/file-types/");
        reveal_strlit(".svg");
        reveal_strlit("console");
        reveal_strlit("icons/file-types/console.svg");
        lemma_shape("icons/file-types/console.svg"@, "console"@);
    }
    assert(is_file_icon("icons/file-types/powershell.svg"@)) by {
        reveal_strlit("icons/file-types/");
        reveal_strlit(".svg");
        reveal_strlit("powershell");
        reveal_strlit("icons/file-types/powershell.svg");
        lemma_shape("icons/file-types/powershell.svg"@, "powershell"@);
    }
    assert(is_file_icon("icons/file-types/database.svg"@)) by {
        reveal_strlit("icons/file-types/");
        reveal_strlit(".svg");
        reveal_strlit("database");
        reveal_strlit("icons/file-types/database.svg");
        lemma_shape("icons/file-types/database.svg"@, "database"@);
    }
    assert(is_file_icon("icons/file-types/image.svg"@)) by {
        reveal_strlit("icons/file-types/");
        reveal_strlit(".svg");
        reveal_strlit("image");
        reveal_strlit("icons/file-types/image.svg");
        lemma_shape("icons/file-types/image.svg"@, "image"@);
    }
    assert(is_file_icon("icons/file-types/svg.svg"@)) by {
        reveal_strlit("icons/file-types/");
        reveal_strlit(".svg");
        reveal_strlit("svg");
        reveal_strlit("icons/file-types/svg.svg");
        lemma_shape("icons/file-types/svg.svg"@, "svg"@);
    }
    assert(is_file_icon("icons/file-types/pdf.svg"@)) by {
        reveal_strlit("icons/file-types/");
        reveal_strlit(".svg");
        reveal_strlit("pdf");
        reveal_strlit("icons/file-types/pdf.svg");
        lemma_shape("icons/file-types/pdf.svg"@, "pdf"@);
    }
    assert(is_file_icon("icons/file-types/audio.svg"@)) by {
        reveal_strlit("icons/file-types/");
        reveal_strlit(".svg");
        reveal_strlit("audio");
        reveal_strlit("icons/file-types/audio.svg");
        lemma_shape("icons/file-types/audio.svg"@, "audio"@);
    }
    assert(is_file_icon("icons/file-types/video.svg"@)) by {
        reveal_strlit("icons/file-types/");
        reveal_strlit(".svg");
        reveal_strlit("video");
        reveal_strlit("icons/file-types/video.svg");
        lemma_shape("icons/file-types/video.svg"@, "video"@);
    }
    assert(is_file_icon("icons/file-types/zip.svg"@)) by {
        reveal_strlit("icons/file-types/");
        reveal_strlit(".svg");
        reveal_strlit("zip");
        reveal_strlit("icons/file-types/zip.svg");
        lemma_shape("icons/file-types/zip.svg"@, "zip"@);
    }
    assert(is_file_icon("icons/file-types/webassembly.svg"@)) by {
        reveal_strlit("icons/file-types/");
        reveal_strlit(".svg");
        reveal_strlit("webassembly");
        reveal_strlit("icons/file-types/webassembly.svg");
        lemma_shape("icons/file-types/webassembly.svg"@, "webassembly"@);
    }
}

proof fn lemma_further_extension(name: Seq<char>)
    ensures
        finds_file_icon(further_extension_spec(name)),
{
    assert(is_file_icon("icons/file-types/svelte.svg"@)) by {
        reveal_strlit("icons/file-types/");
        reveal_strlit(".svg");
        reveal_strlit("svelte");
        reveal_strlit("icons/file-types/svelte.svg");
        lemma_shape("icons/file-types/svelte.svg"@, "svelte"@);
    }
    assert(is_file_icon("icons/file-types/vue.svg"@)) by {
        reveal_strlit("icons/file-types/");
        reveal_strlit(".svg");
        reveal_strlit("vue");
        reveal_strlit("icons/file-types/vue.svg");
        lemma_shape("icons/file-types/vue.svg"@, "vue"@);
    }
    assert(is_file_icon("icons/file-types/terraform.svg"@)) by {
        reveal_strlit("icons/file-types/");
        reveal_strlit(".svg");
        reveal_strlit("terraform");
        reveal_strlit("icons/file-types/terraform.svg");
        lemma_shape("icons/file-types/terraform.svg"@, "terraform"@);
    }
    assert(is_file_icon("icons/file-types/graphql.svg"@)) by {
        reveal_strlit("icons/file-types/");
        reveal_strlit(".svg");
        reveal_strlit("graphql");
        reveal_strlit("icons/file-types/graphql.svg");
        lemma_shape("icons/file-types/graphql.svg"@, "graphql"@);
    }
    assert(is_file_icon("icons/file-types/lua.svg"@)) by {
        reveal_strlit("icons/file-types/");
        reveal_strlit(".svg");
        reveal_strlit("lua");
        reveal_strlit("icons/file-types/lua.svg");
        lemma_shape("icons/file-types/lua.svg"@, "lua"@);
    }
    assert(is_file_icon("icons/file-types/dart.svg"@)) by {
        reveal_strlit("icons/file-types/");
        reveal_strlit(".svg");
        reveal_strlit("dart");
        reveal_strlit("icons/file-types/dart.svg");
        lemma_shape("icons/file-types/dart.svg"@, "dart"@);
    }
    assert(is_file_icon("icons/file-types/astro.svg"@)) by {
        reveal_strlit("icons/file-types/");
        reveal_strlit(".svg");
        reveal_strlit("astro");
        reveal_strlit("icons/file-types/astro.svg");
        lemma_shape("icons/file-types/astro.svg"@, "astro"@);
    }
    assert(is_file_icon("icons/file-types/coffee.svg"@)) by {
        reveal_strlit("icons/file-types/");
        reveal_strlit(".svg");
        reveal_strlit("coffee");
        reveal_strlit("icons/file-types/coffee.svg");
        lemma_shape("icons/file-types/coffee.svg"@, "coffee"@);
    }
    assert(is_file_icon("icons/file-types/crystal.svg"@)) by {
        reveal_strlit("icons/file-types/");
        reveal_strlit(".svg");
        reveal_strlit("crystal");
        reveal_strlit("icons/file-types/crystal.svg");
        lemma_shape("icons/file-types/crystal.svg"@, "crystal"@);
    }
    assert(is_file_icon("icons/file-types/elixir.svg"@)) by {
        reveal_strlit("icons/file-types/");
        reveal_strlit(".svg");
        reveal_strlit("elixir");
        reveal_strlit("icons/file-types/elixir.svg");
        lemma_shape("icons/file-types/elixir.svg"@, "elixir"@);
    }
    assert(is_file_icon("icons/file-types/elm.svg"@)) by {
        reveal_strlit("icons/file-types/");
        reveal_strlit(".svg");
        reveal_strlit("elm");
        reveal_strlit("icons/file-types/elm.svg");
        lemma_shape("icons/file-types/elm.svg"@, "elm"@);
    }
    assert(is_file_icon("icons/file-types/erlang.svg"@)) by {
        reveal_strlit("icons/file-types/");
        reveal_strlit(".svg");
        reveal_strlit("erlang");
        reveal_strlit("icons/file-types/erlang.svg");
        lemma_shape("icons/file-types/erlang.svg"@, "erlang"@);
    }
    assert(is_file_icon("icons/file-types/clojure.svg"@)) by {
        reveal_strlit("icons/file-types/");
        reveal_strlit(".svg");
        reveal_strlit("clojure");
        reveal_strlit("icons/file-types/clojure.svg");
        lemma_shape("icons/file-types/clojure.svg"@, "clojure"@);
    }
    assert(is_file_icon("icons/file-types/haskell.svg"@)) by {
        reveal_strlit("icons/file-types/");
        reveal_strlit(".svg");
        reveal_strlit("haskell");
        reveal_strlit("icons/file-types/haskell.svg");
        lemma_shape("icons/file-types/haskell.svg"@, "haskell"@);
    }
    assert(is_file_icon("icons/file-types/haxe.svg"@)) by {
        reveal_strlit("icons/file-types/");
        reveal_strlit(".svg");
        reveal_strlit("haxe");
        reveal_strlit("icons/file-types/haxe.svg");
        lemma_shape("icons/file-types/haxe.svg"@, "haxe"@);
    }
    assert(is_file_icon("icons/file-types/jinja.svg"@)) by {
        reveal_strlit("icons/file-types/");
        reveal_strlit(".svg");
        reveal_strlit("jinja");
        reveal_strlit("icons/file-types/jinja.svg");
        lemma_shape("icons/file-types/jinja.svg"@, "jinja"@);
    }
}

proof fn lemma_other_extension(name: Seq<char>)
    ensures
        finds_file_icon(other_extension_spec(name)),
{
    assert(is_file_icon("icons/file-types/julia.svg"@)) by {
        reveal_strlit("icons/file-types/");
        reveal_strlit(".svg");
        reveal_strlit("julia");
        reveal_strlit("icons/file-types/julia.svg");
        lemma_shape("icons/file-types/julia.svg"@, "julia"@);
    }
    assert(is_file_icon("icons/file-types/ocaml.svg"@)) by {
        reveal_strlit("icons/file-types/");
        reveal_strlit(".svg");
        reveal_strlit("ocaml");
        reveal_strlit("icons/file-types/ocaml.svg");
        lemma_shape("icons/file-types/ocaml.svg"@, "ocaml"@);
    }
    assert(is_file_icon("icons/file-types/perl.svg"@)) by {
        reveal_strlit("icons/file-types/");
        reveal_strlit(".svg");
        reveal_strlit("perl");
        reveal_strlit("icons/file-types/perl.svg");
        lemma_shape("icons/file-types/perl.svg"@, "perl"@);
    }
    assert(is_file_icon("icons/file-types/prisma.svg"@)) by {
        reveal_strlit("icons/file-types/");
        reveal_strlit(".svg");
        reveal_strlit("prisma");
        reveal_strlit("icons/file-types/prisma.svg");
        lemma_shape("icons/file-types/prisma.svg"@, "prisma"@);
    }
    assert(is_file_icon("icons/file-types/pug.svg"@)) by {
        reveal_strlit("icons/file-types/");
        reveal_strlit(".svg");
        reveal_strlit("pug");
        reveal_strlit("icons/file-types/pug.svg");
        lemma_shape("icons/file-types/pug.svg"@, "pug"@);
    }
    assert(is_file_icon("icons/file-types/scala.svg"@)) by {
        reveal_strlit("icons/file-types/");
        reveal_strlit(".svg");
        reveal_strlit("scala");
        reveal_strlit("icons/file-types/scala.svg");
        lemma_shape("icons/file-types/scala.svg"@, "scala"@);
    }
    assert(is_file_icon("icons/file-types/solidity.svg"@)) by {
        reveal_strlit("icons/file-types/");
        reveal_strlit(".svg");
        reveal_strlit("solidity");
        reveal_strlit("icons/file-types/solidity.svg");
        lemma_shape("icons/file-types/solidity.svg"@, "solidity"@);
    }
    assert(is_file_icon("icons/file-types/tex.svg"@)) by {
        reveal_strlit("icons/file-types/");
        reveal_strlit(".svg");
        reveal_strlit("tex");
        reveal_strlit("icons/file-types/tex.svg");
        lemma_shape("icons/file-types/tex.svg"@, "tex"@);
    }
    assert(is_file_icon("icons/file-types/xaml.svg"@)) by {
        reveal_strlit("icons/file-types/");
        reveal_strlit(".svg");
        reveal_strlit("xaml");
        reveal_strlit("icons/file-types/xaml.svg");
        lemma_shape("icons/file-types/xaml.svg"@, "xaml"@);
    }
    assert(is_file_icon("icons/file-types/zig.svg"@)) by {
        reveal_strlit("icons/file-types/");
        reveal_strlit(".svg");
        reveal_strlit("zig");
        reveal_strlit("icons/file-types/zig.svg");
        lemma_shape("icons/file-types/zig.svg"@, "zig"@);
    }
    assert(is_file_icon("icons/file-types/nix.svg"@)) by {
        reveal_strlit("icons/file-types/");
        reveal_strlit(".svg");
        reveal_strlit("nix");
        reveal_strlit("icons/file-types/nix.svg");
        lemma_shape("icons/file-types/nix.svg"@, "nix"@);
    }
    assert(is_file_icon("icons/file-types/proto.svg"@)) by {
        reveal_strlit("icons/file-types/");
        reveal_strlit(".svg");
        reveal_strlit("proto");
        reveal_strlit("icons/file-types/proto.svg");
        lemma_shape("icons/file-types/proto.svg"@, "proto"@);
    }
    assert(is_file_icon("icons/file-types/diff.svg"@)) by {
        reveal_strlit("icons/file-types/");
        reveal_strlit(".svg");
        reveal_strlit("diff");
        reveal_strlit("icons/file-types/diff.svg");
        lemma_shape("icons/file-types/diff.svg"@, "diff"@);
    }
    assert(is_file_icon("icons/file-types/exe.svg"@)) by {
        reveal_strlit("icons/file-types/");
        reveal_strlit(".svg");
        reveal_strlit("exe");
        reveal_strlit("icons/file-types/exe.svg");
        lemma_shape("icons/file-types/exe.svg"@, "exe"@);
    }
    assert(is_file_icon("icons/file-types/lock.svg"@)) by {
        reveal_strlit("icons/file-types/");
        reveal_strlit(".svg");
        reveal_strlit("lock");
        reveal_strlit("icons/file-types/lock.svg");
        lemma_shape("icons/file-types/lock.svg"@, "lock"@);
    }
}

/// Every icon of a file is one of the pictures of files: whatever the name or the path, the
/// icon stands in their directory and is an SVG.
pub proof fn icons_are_pictures_of_files(name: Seq<char>)
    ensures
        is_file_icon(icon_for(name)),
        is_file_icon(path_icon(name)),
{
    assert forall|name: Seq<char>| is_file_icon(#[trigger] icon_for(name)) by {
        lemma_icon(name);
    }
}

proof fn lemma_icon(name: Seq<char>)
    ensures
        is_file_icon(icon_for(name)),
{
    assert forall|name: Seq<char>| finds_file_icon(#[trigger] named_icon(name)) by {
        lemma_project_file(name);
        lemma_tool_file(name);
        lemma_framework_file(name);
        lemma_platform_file(name);
    }
    assert forall|extension: Seq<char>| finds_file_icon(#[trigger] extension_icon(extension)) by {
        lemma_language_extension(extension);
        lemma_format_extension(extension);
        lemma_further_extension(extension);
        lemma_other_extension(extension);
    }
    assert(is_file_icon("icons/file-types/file.svg"@)) by {
        reveal_strlit("icons/file-types/");
        reveal_strlit(".svg");
        reveal_strlit("file");
        reveal_strlit("icons/file-types/file.svg");
        lemma_shape("icons/file-types/file.svg"@, "file"@);
    }
}

} // verus!
