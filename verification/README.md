# GitPic

GitPic uploads dropped or selected images to a personal GitHub or GitLab repository. It creates the
named repository when needed, reuses it afterward, and combines each selection into one Git commit
and push. Personal access tokens never enter command-line arguments, repository URLs or
configuration files: it is proved that all of these are the same whatever the token is.

`src/` is a library that is verified with Verus. It decides and computes everything, and performs
nothing: each longer operation is a procedure that asks for one action at a time and is told how it
went. What a procedure asks for, and what it makes of each reply, is stated by a model next to it,
and the laws that hold of whole runs are proved about those models.

| module | what it holds |
| --- | --- |
| `models` | providers, profiles, stored settings, repositories, results, errors |
| `settings` | the file of the settings, the tokens, what the user interface needs at its start |
| `providers` | finding a repository at its provider, or creating it there |
| `commands` | saving the settings, choosing what an upload goes to |
| `git` | preparing the local repository, copying images, committing, pushing, Git LFS |
| `procedure` | what all procedures have in common |
| `text`, `percent`, `json` | texts, their encoding in URLs, JSON |

A few calls into other crates and the standard library are trusted: `String::push`,
`String::from_utf8_lossy`, `percent_encoding::utf8_percent_encode`,
`reqwest::StatusCode::canonical_reason`, and four functions of `serde_json::Value`. Each stands
behind an item whose comment says what is claimed of it.

`app/` is the desktop application around the library: the window, files, processes, the network and
the credential store of the operating system. `tests/` runs the library on concrete values.
