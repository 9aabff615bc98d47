//! Suggested files: what they start with, and choosing a template.

use vstd::prelude::*;
use crate::fleet::text_view;
use crate::text::{a_number_reads_back, concat2, decimal, decimal_of, parse_number, same, whole_number};

verus! {

/// Starter content for a suggested file.
pub open spec fn template_of(name: Option<Seq<char>>) -> Seq<char> {
    match name {
        Some(name) => if name == "devcontainer.json"@ {
            "{\n    // Define the project's devcontainer. taste-ide validates this\n    // config (no privileged flags, mounts stay in the workspace).\n    \"name\": \"dev\",\n    \"image\": \"registry.fedoraproject.org/fedora:44\",\n    \"runArgs\": [\"--userns=keep-id\"],\n    // Services: forwardPorts publishes on localhost (ports >= 1024).\n    // \"forwardPorts\": [8080],\n    // Caches: named volumes only.\n    // \"mounts\": [\"source=build-cache,target=/cache,type=volume\"],\n    // Background services: a systemd-capable image plus\n    // \"runArgs\": [\"--userns=keep-id\", \"--systemd=always\"] and\n    // \"overrideCommand\": false\n}\n"@
        } else if name == ".editorconfig"@ {
            "root = true\n\n[*]\ncharset = utf-8\nend_of_line = lf\ninsert_final_newline = true\ntrim_trailing_whitespace = true\nindent_style = space\nindent_size = 4\n"@
        } else if name == ".gitignore"@ {
            "# Build artifacts\n"@
        } else if name == ".gitattributes"@ {
            "* text=auto\n"@
        } else {
            "\n"@
        },
        None => "\n"@,
    }
}

/// Starter content for a suggested file, so creation lands somewhere useful.
pub fn ghost_template(file_name: Option<&str>) -> (out: &'static str)
    ensures
        out@ == template_of(text_view(file_name)),
{
    match file_name {
        Some(name) => {
            if same(name, "devcontainer.json") {
                "{\n    // Define the project's devcontainer. taste-ide validates this\n    // config (no privileged flags, mounts stay in the workspace).\n    \"name\": \"dev\",\n    \"image\": \"registry.fedoraproject.org/fedora:44\",\n    \"runArgs\": [\"--userns=keep-id\"],\n    // Services: forwardPorts publishes on localhost (ports >= 1024).\n    // \"forwardPorts\": [8080],\n    // Caches: named volumes only.\n    // \"mounts\": [\"source=build-cache,target=/cache,type=volume\"],\n    // Background services: a systemd-capable image plus\n    // \"runArgs\": [\"--userns=keep-id\", \"--systemd=always\"] and\n    // \"overrideCommand\": false\n}\n"
            } else if same(name, ".editorconfig") {
                "root = true\n\n[*]\ncharset = utf-8\nend_of_line = lf\ninsert_final_newline = true\ntrim_trailing_whitespace = true\nindent_style = space\nindent_size = 4\n"
            } else if same(name, ".gitignore") {
                "# Build artifacts\n"
            } else if same(name, ".gitattributes") {
                "* text=auto\n"
            } else {
                "\n"
            }
        },
        None => "\n",
    }
}

/// An answer the template dialog offers.
#[derive(Debug, PartialEq, Eq)]
pub struct Response {
    pub id: String,
    pub label: String,
}

/// The answers of a dialog over these templates.
pub open spec fn is_response(out: Response, id: Seq<char>, label: Seq<char>) -> bool {
    out.id@ == id && out.label@ == label
}

/// The answers a dialog offers.
pub open spec fn offers(templates: Seq<String>, out: Option<Vec<Response>>) -> bool {
    &&& out is None <==> templates.len() == 0
    &&& out matches Some(responses) ==> {
        &&& responses@.len() == templates.len() + 2
        &&& is_response(responses@[0], "cancel"@, "Cancel"@)
        &&& is_response(responses@[1], "builtin"@, "Built-in"@)
        &&& forall|i: int|
            0 <= i < templates.len() ==> is_response(
                responses@[i + 2],
                "t"@ + decimal_of(i as nat),
                (#[trigger] templates[i])@,
            )
    }
}

/// The answers the dialog offers: cancelling, the built-in content, and each
/// of the user's templates by its place. `None` where the user keeps none and
/// the file is created silently.
pub fn create_ghost(templates: &Vec<String>) -> (out: Option<Vec<Response>>)
    ensures
        offers(templates@, out),
{
    if templates.len() == 0 {
        return None;
    }
    let mut responses: Vec<Response> = Vec::new();
    responses.push(Response { id: "cancel".to_owned(), label: "Cancel".to_owned() });
    responses.push(Response { id: "builtin".to_owned(), label: "Built-in".to_owned() });
    let mut i: usize = 0;
    while i < templates.len()
        invariant
            i <= templates@.len(),
            responses@.len() == i + 2,
            is_response(responses@[0], "cancel"@, "Cancel"@),
            is_response(responses@[1], "builtin"@, "Built-in"@),
            forall|j: int|
                0 <= j < i ==> is_response(
                    responses@[j + 2],
                    "t"@ + decimal_of(j as nat),
                    (#[trigger] templates@[j])@,
                ),
        decreases templates@.len() - i,
    {
        let ghost before = responses@;
        let digits = decimal(i as u64);
        responses.push(
            Response { id: concat2("t", digits.as_str()), label: templates[i].clone() },
        );
        proof {
            assert forall|j: int| 0 <= j < i + 1 implies is_response(
                responses@[j + 2],
                "t"@ + decimal_of(j as nat),
                (#[trigger] templates@[j])@,
            ) by {
                if j < i {
                    assert(responses@[j + 2] == before[j + 2]);
                }
            }
        }
        i += 1;
    }
    Some(responses)
}

/// What an answer chooses.
#[derive(Debug, Clone, Copy, PartialEq, Eq, Structural)]
pub enum TemplateChoice {
    BuiltIn,
    /// The user's template at this place.
    Template(usize),
    Nothing,
}

/// What an answer chooses among `count` templates.
pub open spec fn choice_of(response: Seq<char>, count: nat) -> TemplateChoice {
    if response == "builtin"@ {
        TemplateChoice::BuiltIn
    } else if response.len() > 0 && response[0] == 't' {
        match whole_number(response.subrange(1, response.len() as int)) {
            Some(n) => if n < count {
                TemplateChoice::Template(n)
            } else {
                TemplateChoice::Nothing
            },
            None => TemplateChoice::Nothing,
        }
    } else {
        TemplateChoice::Nothing
    }
}

/// What an answer chooses: the built-in content, one of the user's templates
/// by its place, or nothing.
pub fn chosen_template(response: &str, count: usize) -> (out: TemplateChoice)
    ensures
        out == choice_of(response@, count as nat),
{
    if same(response, "builtin") {
        return TemplateChoice::BuiltIn;
    }
    let n: usize = response.unicode_len();
    if n > 0 && response.get_char(0) == 't' {
        let rest = response.substring_char(1, n);
        match parse_number(rest) {
            Some(i) => if i < count {
                TemplateChoice::Template(i)
            } else {
                TemplateChoice::Nothing
            },
            None => TemplateChoice::Nothing,
        }
    } else {
        TemplateChoice::Nothing
    }
}

/// The answer offered for a template chooses that template.
pub proof fn an_offered_template_is_chosen(i: nat, count: nat)
    requires
        i < count <= usize::MAX,
    ensures
        choice_of("t"@ + decimal_of(i), count) == TemplateChoice::Template(i as usize),
{
    reveal_strlit("t");
    reveal_strlit("builtin");
    a_number_reads_back(i as usize);
    let s = "t"@ + decimal_of(i);
    assert(s[0] == 't');
    assert("builtin"@[0] == 'b');
    assert(s.subrange(1, s.len() as int) =~= decimal_of(i));
}

/// A dialog opens exactly where the user keeps templates. Its first answer
/// chooses nothing, its second what is built in, and every other the template
/// whose name it bears.
pub proof fn every_answer_chooses_what_it_says(
    templates: Seq<String>,
    out: Option<Vec<Response>>,
    i: int,
)
    requires
        templates.len() <= usize::MAX,
        offers(templates, out),
    ensures
        out is Some <==> templates.len() > 0,
        out matches Some(responses) ==> {
            &&& responses@.len() == templates.len() + 2
            &&& choice_of(responses@[0].id@, templates.len()) == TemplateChoice::Nothing
            &&& choice_of(responses@[1].id@, templates.len()) == TemplateChoice::BuiltIn
            &&& 0 <= i < templates.len() ==> choice_of(responses@[i + 2].id@, templates.len())
                == TemplateChoice::Template(i as usize) && responses@[i + 2].label@ == templates[i]@
        },
{
    if let Some(responses) = out {
        reveal_strlit("cancel");
        reveal_strlit("builtin");
        assert("cancel"@.len() == 6 && "cancel"@[0] == 'c' && "builtin"@.len() == 7);
        if 0 <= i < templates.len() {
            an_offered_template_is_chosen(i as nat, templates.len());
            assert(templates[i]@ == responses@[i + 2].label@);
        }
    }
}

/// A suggested file starts with what belongs in it, by its name, and any other
/// with an empty line.
pub proof fn a_suggested_file_starts_with_its_own(name: Seq<char>)
    ensures
        template_of(None) == "\n"@,
        template_of(Some(".gitignore"@)) == "# Build artifacts\n"@,
        template_of(Some(".gitattributes"@)) == "* text=auto\n"@,
        crate::text::begins_with(template_of(Some(".editorconfig"@)), "root = true"@),
        crate::text::begins_with(template_of(Some("devcontainer.json"@)), "{\n"@),
        name != "devcontainer.json"@ && name != ".editorconfig"@ && name != ".gitignore"@ && name
            != ".gitattributes"@ ==> template_of(Some(name)) == "\n"@,
{
    reveal_strlit("devcontainer.json");
    reveal_strlit(".editorconfig");
    reveal_strlit(".gitignore");
    reveal_strlit(".gitattributes");
    assert("devcontainer.json"@.len() == 17 && ".editorconfig"@.len() == 13);
    assert(".gitignore"@.len() == 10 && ".gitattributes"@.len() == 14);
    lemma_editorconfig_lead();
    lemma_devcontainer_lead();
}

proof fn lemma_editorconfig_lead()
    ensures
        crate::text::begins_with(
            "root = true\n\n[*]\ncharset = utf-8\nend_of_line = lf\ninsert_final_newline = true\ntrim_trailing_whitespace = true\nindent_style = space\nindent_size = 4\n"@,
            "root = true"@,
        ),
{
    let all = "root = true\n\n[*]\ncharset = utf-8\nend_of_line = lf\ninsert_final_newline = true\ntrim_trailing_whitespace = true\nindent_style = space\nindent_size = 4\n"@;
    reveal_strlit(
        "root = true\n\n[*]\ncharset = utf-8\nend_of_line = lf\ninsert_final_newline = true\ntrim_trailing_whitespace = true\nindent_style = space\nindent_size = 4\n",
    );
    reveal_strlit("root = true");
    assert("root = true"@.len() == 11);
    assert(all.subrange(0, 11) =~= "root = true"@);
}

proof fn lemma_devcontainer_lead()
    ensures
        crate::text::begins_with(
            "{\n    // Define the project's devcontainer. taste-ide validates this\n    // config (no privileged flags, mounts stay in the workspace).\n    \"name\": \"dev\",\n    \"image\": \"registry.fedoraproject.org/fedora:44\",\n    \"runArgs\": [\"--userns=keep-id\"],\n    // Services: forwardPorts publishes on localhost (ports >= 1024).\n    // \"forwardPorts\": [8080],\n    // Caches: named volumes only.\n    // \"mounts\": [\"source=build-cache,target=/cache,type=volume\"],\n    // Background services: a systemd-capable image plus\n    // \"runArgs\": [\"--userns=keep-id\", \"--systemd=always\"] and\n    // \"overrideCommand\": false\n}\n"@,
            "{\n"@,
        ),
{
    let all = "{\n    // Define the project's devcontainer. taste-ide validates this\n    // config (no privileged flags, mounts stay in the workspace).\n    \"name\": \"dev\",\n    \"image\": \"registry.fedoraproject.org/fedora:44\",\n    \"runArgs\": [\"--userns=keep-id\"],\n    // Services: forwardPorts publishes on localhost (ports >= 1024).\n    // \"forwardPorts\": [8080],\n    // Caches: named volumes only.\n    // \"mounts\": [\"source=build-cache,target=/cache,type=volume\"],\n    // Background services: a systemd-capable image plus\n    // \"runArgs\": [\"--userns=keep-id\", \"--systemd=always\"] and\n    // \"overrideCommand\": false\n}\n"@;
    reveal_strlit(
        "{\n    // Define the project's devcontainer. taste-ide validates this\n    // config (no privileged flags, mounts stay in the workspace).\n    \"name\": \"dev\",\n    \"image\": \"registry.fedoraproject.org/fedora:44\",\n    \"runArgs\": [\"--userns=keep-id\"],\n    // Services: forwardPorts publishes on localhost (ports >= 1024).\n    // \"forwardPorts\": [8080],\n    // Caches: named volumes only.\n    // \"mounts\": [\"source=build-cache,target=/cache,type=volume\"],\n    // Background services: a systemd-capable image plus\n    // \"runArgs\": [\"--userns=keep-id\", \"--systemd=always\"] and\n    // \"overrideCommand\": false\n}\n",
    );
    reveal_strlit("{\n");
    assert("{\n"@.len() == 2);
    assert(all.subrange(0, 2) =~= "{\n"@);
}

} // verus!
