//! Emitter of the HTML helper file of the web service.

use vstd::prelude::*;
use vstd::string::StringExecFns;
use crate::names::{title, to_title};
use crate::scaffold::route_analysis::{RouteTable, RouteTableView, StoreInfo, StoreInfoView, Route,
    RouteView, RouteKind, HttpMethod, replaced, replace_char, store_infos_view, routes_view};
use crate::text::{left, owned};

verus! {

/// The navigation links of one store: the list and the form for a new item.
pub open spec fn store_links(acc: Seq<char>, store: StoreInfoView, first: bool) -> Seq<char> {
    (if first {
        acc
    } else {
        acc + ", "@
    }) + "(\"/\", \""@ + title(store.plural) + "\")"@ + ", "@ + "(\"/"@ + store.plural
        + "/new\", \"New "@ + title(store.singular) + "\")"@
}

/// The navigation links of the stores from `i` on, separated by `, `.
pub open spec fn nav_links(acc: Seq<char>, stores: Seq<StoreInfoView>, i: int) -> Seq<char>
    decreases left(stores.len(), i),
{
    if 0 <= i < stores.len() {
        nav_links(store_links(acc, stores[i], i == 0), stores, i + 1)
    } else {
        acc
    }
}

fn build_nav_links(table: &RouteTable) -> (r: String)
    ensures
        r@ == nav_links(Seq::empty(), table@.store_types, 0),
{
    let ghost vs = table@.store_types;
    let mut out = String::new();
    let mut i: usize = 0;
    while i < table.store_types.len()
        invariant
            i <= table.store_types.len(),
            nav_links(out@, vs, i as int) == nav_links(Seq::empty(), vs, 0),
        decreases table.store_types.len() - i,
    {
        let store = &table.store_types[i];
        let plural_title = to_title(store.plural.as_str());
        let singular_title = to_title(store.singular.as_str());
        if i > 0 {
            out.append(", ");
        }
        out.append("(\"/\", \"");
        out.append(plural_title.as_str());
        out.append("\")");
        out.append(", ");
        out.append("(\"/");
        out.append(store.plural.as_str());
        out.append("/new\", \"New ");
        out.append(singular_title.as_str());
        out.append("\")");
        i += 1;
    }
    out
}

/// Part 1 of the helper file.
pub open spec fn helpers_part1(acc: Seq<char>, app_title: Seq<char>, nav_links: Seq<char>) -> Seq<char> {
    let s = acc + "/// Wrap body content in a full HTML page with Tailwind CDN\n"@ + "pub fn html_page(title: &str, body: &str) -> String {\n"@ + "    format!(\n"@ + "        r##\"<!DOCTYPE html>\n"@ + "<html lang=\"en\">\n"@ + "<head>\n"@ + "    <meta charset=\"UTF-8\">\n"@ + "    <meta name=\"viewport\" content=\"width=device-width, initial-scale=1.0\">\n"@ + "    <title>{title} - "@ + app_title + "</title>\n"@ + "    <script src=\"https://cdn.tailwindcss.com\"></script>\n"@ + "</head>\n"@ + "<body class=\"bg-gray-50 min-h-screen\">\n"@ + "    {nav}\n"@ + "    <main class=\"max-w-4xl mx-auto py-8 px-4\">\n"@ + "        {body}\n"@ + "    </main>\n"@ + "</body>\n"@ + "</html>\"##,\n"@ + "        title = title,\n"@ + "        nav = html_nav(\""@ + app_title + "\", &["@ + nav_links + "]),\n"@ + "        body = body,\n"@ + "    )\n"@ + "}\n"@ + "\n"@;
    s
}

fn emit_helpers_part1(out: &mut String, app_title: &str, nav_links: &str)
    ensures
        final(out)@ == helpers_part1(old(out)@, app_title@, nav_links@),
{
    out.append("/// Wrap body content in a full HTML page with Tailwind CDN\n");
    out.append("pub fn html_page(title: &str, body: &str) -> String {\n");
    out.append("    format!(\n");
    out.append("        r##\"<!DOCTYPE html>\n");
    out.append("<html lang=\"en\">\n");
    out.append("<head>\n");
    out.append("    <meta charset=\"UTF-8\">\n");
    out.append("    <meta name=\"viewport\" content=\"width=device-width, initial-scale=1.0\">\n");
    out.append("    <title>{title} - ");
    out.append(app_title);
    out.append("</title>\n");
    out.append("    <script src=\"https://cdn.tailwindcss.com\"></script>\n");
    out.append("</head>\n");
    out.append("<body class=\"bg-gray-50 min-h-screen\">\n");
    out.append("    {nav}\n");
    out.append("    <main class=\"max-w-4xl mx-auto py-8 px-4\">\n");
    out.append("        {body}\n");
    out.append("    </main>\n");
    out.append("</body>\n");
    out.append("</html>\"##,\n");
    out.append("        title = title,\n");
    out.append("        nav = html_nav(\"");
    out.append(app_title);
    out.append("\", &[");
    out.append(nav_links);
    out.append("]),\n");
    out.append("        body = body,\n");
    out.append("    )\n");
    out.append("}\n");
    out.append("\n");
}
/// Part 2 of the helper file.
pub open spec fn helpers_part2(acc: Seq<char>, app_title: Seq<char>, nav_links: Seq<char>) -> Seq<char> {
    let s = acc + "/// Top navigation bar\n"@ + "pub fn html_nav(title: &str, links: &[(&str, &str)]) -> String {\n"@ + "    let link_items: String = links\n"@ + "        .iter()\n"@ + "        .map(|(href, label)| {\n"@ + "            format!(\n"@ + "                r#\"<a href=\"{href}\" class=\"text-gray-300 hover:text-white px-3 py-2 text-sm font-medium\">{label}</a>\"#,\n"@ + "                href = href,\n"@ + "                label = label,\n"@ + "            )\n"@ + "        })\n"@ + "        .collect();\n"@ + "\n"@ + "    format!(\n"@ + "        r#\"<nav class=\"bg-gray-800\">\n"@ + "    <div class=\"max-w-4xl mx-auto px-4 py-3 flex items-center justify-between\">\n"@ + "        <span class=\"text-white font-bold text-lg\">{title}</span>\n"@ + "        <div class=\"flex space-x-4\">{links}</div>\n"@ + "    </div>\n"@ + "</nav>\"#,\n"@ + "        title = title,\n"@ + "        links = link_items,\n"@ + "    )\n"@ + "}\n"@ + "\n"@ + "/// Render a Tailwind-styled table\n"@ + "pub fn html_table(headers: &[&str], rows: &[Vec<String>]) -> String {\n"@ + "    let header_cells: String = headers\n"@ + "        .iter()\n"@ + "        .map(|h| format!(r#\"<th class=\"px-6 py-3 text-left text-xs font-medium text-gray-500 uppercase tracking-wider\">{h}</th>\"#, h = h))\n"@;
    s
}

fn emit_helpers_part2(out: &mut String, app_title: &str, nav_links: &str)
    ensures
        final(out)@ == helpers_part2(old(out)@, app_title@, nav_links@),
{
    out.append("/// Top navigation bar\n");
    out.append("pub fn html_nav(title: &str, links: &[(&str, &str)]) -> String {\n");
    out.append("    let link_items: String = links\n");
    out.append("        .iter()\n");
    out.append("        .map(|(href, label)| {\n");
    out.append("            format!(\n");
    out.append("                r#\"<a href=\"{href}\" class=\"text-gray-300 hover:text-white px-3 py-2 text-sm font-medium\">{label}</a>\"#,\n");
    out.append("                href = href,\n");
    out.append("                label = label,\n");
    out.append("            )\n");
    out.append("        })\n");
    out.append("        .collect();\n");
    out.append("\n");
    out.append("    format!(\n");
    out.append("        r#\"<nav class=\"bg-gray-800\">\n");
    out.append("    <div class=\"max-w-4xl mx-auto px-4 py-3 flex items-center justify-between\">\n");
    out.append("        <span class=\"text-white font-bold text-lg\">{title}</span>\n");
    out.append("        <div class=\"flex space-x-4\">{links}</div>\n");
    out.append("    </div>\n");
    out.append("</nav>\"#,\n");
    out.append("        title = title,\n");
    out.append("        links = link_items,\n");
    out.append("    )\n");
    out.append("}\n");
    out.append("\n");
    out.append("/// Render a Tailwind-styled table\n");
    out.append("pub fn html_table(headers: &[&str], rows: &[Vec<String>]) -> String {\n");
    out.append("    let header_cells: String = headers\n");
    out.append("        .iter()\n");
    out.append("        .map(|h| format!(r#\"<th class=\"px-6 py-3 text-left text-xs font-medium text-gray-500 uppercase tracking-wider\">{h}</th>\"#, h = h))\n");
}
/// Part 3 of the helper file.
pub open spec fn helpers_part3(acc: Seq<char>, app_title: Seq<char>, nav_links: Seq<char>) -> Seq<char> {
    let s = acc + "        .collect();\n"@ + "\n"@ + "    let body_rows: String = rows\n"@ + "        .iter()\n"@ + "        .map(|row| {\n"@ + "            let cells: String = row\n"@ + "                .iter()\n"@ + "                .map(|cell| {\n"@ + "                    format!(\n"@ + "                        r#\"<td class=\"px-6 py-4 whitespace-nowrap text-sm text-gray-900\">{cell}</td>\"#,\n"@ + "                        cell = cell,\n"@ + "                    )\n"@ + "                })\n"@ + "                .collect();\n"@ + "            format!(\"<tr class=\\\"hover:bg-gray-50\\\">{cells}</tr>\", cells = cells)\n"@ + "        })\n"@ + "        .collect();\n"@ + "\n"@ + "    format!(\n"@ + "        r#\"<div class=\"overflow-hidden shadow ring-1 ring-black ring-opacity-5 rounded-lg\">\n"@ + "    <table class=\"min-w-full divide-y divide-gray-300\">\n"@ + "        <thead class=\"bg-gray-50\">\n"@ + "            <tr>{headers}</tr>\n"@ + "        </thead>\n"@ + "        <tbody class=\"divide-y divide-gray-200 bg-white\">{body}</tbody>\n"@ + "    </table>\n"@ + "</div>\"#,\n"@ + "        headers = header_cells,\n"@ + "        body = body_rows,\n"@ + "    )\n"@;
    s
}

fn emit_helpers_part3(out: &mut String, app_title: &str, nav_links: &str)
    ensures
        final(out)@ == helpers_part3(old(out)@, app_title@, nav_links@),
{
    out.append("        .collect();\n");
    out.append("\n");
    out.append("    let body_rows: String = rows\n");
    out.append("        .iter()\n");
    out.append("        .map(|row| {\n");
    out.append("            let cells: String = row\n");
    out.append("                .iter()\n");
    out.append("                .map(|cell| {\n");
    out.append("                    format!(\n");
    out.append("                        r#\"<td class=\"px-6 py-4 whitespace-nowrap text-sm text-gray-900\">{cell}</td>\"#,\n");
    out.append("                        cell = cell,\n");
    out.append("                    )\n");
    out.append("                })\n");
    out.append("                .collect();\n");
    out.append("            format!(\"<tr class=\\\"hover:bg-gray-50\\\">{cells}</tr>\", cells = cells)\n");
    out.append("        })\n");
    out.append("        .collect();\n");
    out.append("\n");
    out.append("    format!(\n");
    out.append("        r#\"<div class=\"overflow-hidden shadow ring-1 ring-black ring-opacity-5 rounded-lg\">\n");
    out.append("    <table class=\"min-w-full divide-y divide-gray-300\">\n");
    out.append("        <thead class=\"bg-gray-50\">\n");
    out.append("            <tr>{headers}</tr>\n");
    out.append("        </thead>\n");
    out.append("        <tbody class=\"divide-y divide-gray-200 bg-white\">{body}</tbody>\n");
    out.append("    </table>\n");
    out.append("</div>\"#,\n");
    out.append("        headers = header_cells,\n");
    out.append("        body = body_rows,\n");
    out.append("    )\n");
}
/// Part 4 of the helper file.
pub open spec fn helpers_part4(acc: Seq<char>, app_title: Seq<char>, nav_links: Seq<char>) -> Seq<char> {
    let s = acc + "}\n"@ + "\n"@ + "/// Render a Tailwind-styled form\n"@ + "pub fn html_form(action: &str, fields: &[(&str, &str, &str)]) -> String {\n"@ + "    let field_html: String = fields\n"@ + "        .iter()\n"@ + "        .map(|(name, label, input_type)| {\n"@ + "            format!(\n"@ + "                r#\"<div class=\"mb-4\">\n"@ + "    <label for=\"{name}\" class=\"block text-sm font-medium text-gray-700 mb-1\">{label}</label>\n"@ + "    <input type=\"{input_type}\" name=\"{name}\" id=\"{name}\"\n"@ + "        class=\"block w-full rounded-md border-gray-300 shadow-sm focus:border-indigo-500 focus:ring-indigo-500 sm:text-sm px-3 py-2 border\"\n"@ + "        required>\n"@ + "</div>\"#,\n"@ + "                name = name,\n"@ + "                label = label,\n"@ + "                input_type = input_type,\n"@ + "            )\n"@ + "        })\n"@ + "        .collect();\n"@ + "\n"@ + "    format!(\n"@ + "        r#\"<form method=\"POST\" action=\"{action}\" class=\"bg-white shadow rounded-lg p-6 max-w-md\">\n"@ + "    {fields}\n"@ + "    <button type=\"submit\"\n"@ + "        class=\"w-full bg-indigo-600 text-white py-2 px-4 rounded-md hover:bg-indigo-700 focus:outline-none focus:ring-2 focus:ring-indigo-500 focus:ring-offset-2 font-medium\">\n"@ + "        Submit\n"@ + "    </button>\n"@ + "</form>\"#,\n"@ + "        action = action,\n"@;
    s
}

fn emit_helpers_part4(out: &mut String, app_title: &str, nav_links: &str)
    ensures
        final(out)@ == helpers_part4(old(out)@, app_title@, nav_links@),
{
    out.append("}\n");
    out.append("\n");
    out.append("/// Render a Tailwind-styled form\n");
    out.append("pub fn html_form(action: &str, fields: &[(&str, &str, &str)]) -> String {\n");
    out.append("    let field_html: String = fields\n");
    out.append("        .iter()\n");
    out.append("        .map(|(name, label, input_type)| {\n");
    out.append("            format!(\n");
    out.append("                r#\"<div class=\"mb-4\">\n");
    out.append("    <label for=\"{name}\" class=\"block text-sm font-medium text-gray-700 mb-1\">{label}</label>\n");
    out.append("    <input type=\"{input_type}\" name=\"{name}\" id=\"{name}\"\n");
    out.append("        class=\"block w-full rounded-md border-gray-300 shadow-sm focus:border-indigo-500 focus:ring-indigo-500 sm:text-sm px-3 py-2 border\"\n");
    out.append("        required>\n");
    out.append("</div>\"#,\n");
    out.append("                name = name,\n");
    out.append("                label = label,\n");
    out.append("                input_type = input_type,\n");
    out.append("            )\n");
    out.append("        })\n");
    out.append("        .collect();\n");
    out.append("\n");
    out.append("    format!(\n");
    out.append("        r#\"<form method=\"POST\" action=\"{action}\" class=\"bg-white shadow rounded-lg p-6 max-w-md\">\n");
    out.append("    {fields}\n");
    out.append("    <button type=\"submit\"\n");
    out.append("        class=\"w-full bg-indigo-600 text-white py-2 px-4 rounded-md hover:bg-indigo-700 focus:outline-none focus:ring-2 focus:ring-indigo-500 focus:ring-offset-2 font-medium\">\n");
    out.append("        Submit\n");
    out.append("    </button>\n");
    out.append("</form>\"#,\n");
    out.append("        action = action,\n");
}
/// Part 5 of the helper file.
pub open spec fn helpers_part5(acc: Seq<char>, app_title: Seq<char>, nav_links: Seq<char>) -> Seq<char> {
    let s = acc + "        fields = field_html,\n"@ + "    )\n"@ + "}\n"@ + "\n"@ + "/// Success/error alert\n"@ + "pub fn html_alert(kind: &str, message: &str) -> String {\n"@ + "    let (bg, border, text) = match kind {\n"@ + "        \"success\" => (\"bg-green-50\", \"border-green-400\", \"text-green-700\"),\n"@ + "        \"error\" => (\"bg-red-50\", \"border-red-400\", \"text-red-700\"),\n"@ + "        \"warning\" => (\"bg-yellow-50\", \"border-yellow-400\", \"text-yellow-700\"),\n"@ + "        _ => (\"bg-blue-50\", \"border-blue-400\", \"text-blue-700\"),\n"@ + "    };\n"@ + "    format!(\n"@ + "        r#\"<div class=\"{bg} border-l-4 {border} p-4 mb-4\">\n"@ + "    <p class=\"{text}\">{message}</p>\n"@ + "</div>\"#,\n"@ + "        bg = bg,\n"@ + "        border = border,\n"@ + "        text = text,\n"@ + "        message = message,\n"@ + "    )\n"@ + "}\n"@;
    s
}

fn emit_helpers_part5(out: &mut String, app_title: &str, nav_links: &str)
    ensures
        final(out)@ == helpers_part5(old(out)@, app_title@, nav_links@),
{
    out.append("        fields = field_html,\n");
    out.append("    )\n");
    out.append("}\n");
    out.append("\n");
    out.append("/// Success/error alert\n");
    out.append("pub fn html_alert(kind: &str, message: &str) -> String {\n");
    out.append("    let (bg, border, text) = match kind {\n");
    out.append("        \"success\" => (\"bg-green-50\", \"border-green-400\", \"text-green-700\"),\n");
    out.append("        \"error\" => (\"bg-red-50\", \"border-red-400\", \"text-red-700\"),\n");
    out.append("        \"warning\" => (\"bg-yellow-50\", \"border-yellow-400\", \"text-yellow-700\"),\n");
    out.append("        _ => (\"bg-blue-50\", \"border-blue-400\", \"text-blue-700\"),\n");
    out.append("    };\n");
    out.append("    format!(\n");
    out.append("        r#\"<div class=\"{bg} border-l-4 {border} p-4 mb-4\">\n");
    out.append("    <p class=\"{text}\">{message}</p>\n");
    out.append("</div>\"#,\n");
    out.append("        bg = bg,\n");
    out.append("        border = border,\n");
    out.append("        text = text,\n");
    out.append("        message = message,\n");
    out.append("    )\n");
    out.append("}\n");
}
/// The helper file: the functions `html_page`, `html_nav`, `html_table`,
/// `html_form` and `html_alert`, with the application title and the
/// navigation links written into `html_page`.
pub open spec fn helpers(acc: Seq<char>, app_title: Seq<char>, nav_links: Seq<char>) -> Seq<char> {
    let s = helpers_part1(acc, app_title, nav_links);
    let s = helpers_part2(s, app_title, nav_links);
    let s = helpers_part3(s, app_title, nav_links);
    let s = helpers_part4(s, app_title, nav_links);
    let s = helpers_part5(s, app_title, nav_links);
    s
}

fn emit_helpers(out: &mut String, app_title: &str, nav_links: &str)
    ensures
        final(out)@ == helpers(old(out)@, app_title@, nav_links@),
{
    emit_helpers_part1(out, app_title, nav_links);
    emit_helpers_part2(out, app_title, nav_links);
    emit_helpers_part3(out, app_title, nav_links);
    emit_helpers_part4(out, app_title, nav_links);
    emit_helpers_part5(out, app_title, nav_links);
}
/// The helper file of the web service for a route table.
pub open spec fn emit_spec(t: RouteTableView) -> Seq<char> {
    helpers(Seq::empty(), title(t.module_name), nav_links(Seq::empty(), t.store_types, 0))
}

/// Generates the HTML helper file of the web service.
pub fn emit(table: &RouteTable) -> (r: String)
    ensures
        r@ == emit_spec(table@),
{
    let app_title = to_title(table.module_name.as_str());
    let links = build_nav_links(table);
    let mut out = String::new();
    emit_helpers(&mut out, app_title.as_str(), links.as_str());
    out
}

} // verus!
