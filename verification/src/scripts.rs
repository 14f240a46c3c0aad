//! The JavaScript that element actions run in the page: what each action
//! sends, with every value it embeds quoted as a string literal.
//!
//! Scripts that run inside a frame quote their values as JSON; those that
//! run in the top page quote them as Rust's debug output does.
use vstd::prelude::*;
use crate::actions::{action_in_range, scroll_offsets, selector_of, element_selector, ActionKind, ActionResult};
use crate::error::Error;
use crate::text::{decimal, decimal_string, debug_quoted, debug_string, signed_decimal, signed_decimal_string, str_eq};

verus! {

/// Opening of an in-frame element script, up to the selector.
pub const CTX_OPEN: &'static str = "(() => { const el = document.querySelector(";

/// After the selector: the missing-element answer.
pub const CTX_GUARD: &'static str = "); if (!el) return {ok:false,error:'Element not found'}; ";

/// Closing of an in-frame element script.
pub const CTX_CLOSE: &'static str = " })()";

/// In-frame click.
pub const CLICK_BODY: &'static str = "el.click(); return {ok:true,message:'Clicked'};";

/// In-frame double click.
pub const DBLCLICK_BODY: &'static str = "el.dispatchEvent(new MouseEvent('dblclick', {bubbles:true,cancelable:true,view:window})); return {ok:true,message:'Double-clicked'};";

/// In-frame right click.
pub const RIGHTCLICK_BODY: &'static str = "el.dispatchEvent(new MouseEvent('contextmenu', {bubbles:true,cancelable:true,button:2})); return {ok:true,message:'Right-clicked'};";

/// In-frame hover.
pub const HOVER_BODY: &'static str = "el.dispatchEvent(new MouseEvent('mouseover', {bubbles:true,cancelable:true,view:window})); el.dispatchEvent(new MouseEvent('mouseenter', {bubbles:false,cancelable:true,view:window})); return {ok:true,message:'Hovered'};";

/// In-frame focus.
pub const FOCUS_BODY: &'static str = "el.focus(); return {ok:true,message:'Focused'};";

/// In-frame typing, up to the clear flag.
pub const TYPE_A: &'static str = "el.focus(); if (";

/// In-frame typing, between the clear flag and the text.
pub const TYPE_B: &'static str = ") el.value = ''; el.value += ";

/// In-frame typing, after the text.
pub const TYPE_C: &'static str = "; el.dispatchEvent(new Event('input', {bubbles:true})); el.dispatchEvent(new Event('change', {bubbles:true})); return {ok:true,message:'Typed text'};";

/// In-frame key press, up to the key.
pub const PRESS_A: &'static str = "el.focus(); el.dispatchEvent(new KeyboardEvent('keydown', {key:";

/// In-frame key press, between the two keys.
pub const PRESS_B: &'static str = ",bubbles:true})); el.dispatchEvent(new KeyboardEvent('keyup', {key:";

/// In-frame key press, after the key.
pub const PRESS_C: &'static str = ",bubbles:true})); return {ok:true,message:'Pressed key'};";

/// In-frame selection, up to the values.
pub const SELECT_A: &'static str = "if (!el.options) return {ok:false,error:'Element is not a select'}; const values = ";

/// In-frame selection, after the values.
pub const SELECT_B: &'static str = "; for (const option of el.options) option.selected = values.includes(option.value); el.dispatchEvent(new Event('change', {bubbles:true})); return {ok:true,message:'Selected options'};";

/// Window scroll, up to the horizontal offset.
pub const SCROLL_A: &'static str = "(() => { window.scrollBy(";

/// Window scroll, between the offsets.
pub const SCROLL_B: &'static str = ",";

/// Window scroll, after the vertical offset.
pub const SCROLL_C: &'static str = "); return {ok:true,message:'Scrolled'}; })()";

/// In-frame drag, up to the source selector.
pub const DRAG_A: &'static str = "(() => { const src = document.querySelector(";

/// In-frame drag, between the selectors.
pub const DRAG_B: &'static str = "); const target = document.querySelector(";

/// In-frame drag, after the target selector.
pub const DRAG_C: &'static str = "); if (!src || !target) return {ok:false,error:'Drag source or target not found'}; const data = new DataTransfer(); src.dispatchEvent(new DragEvent('dragstart', {bubbles:true,dataTransfer:data})); target.dispatchEvent(new DragEvent('dragover', {bubbles:true,dataTransfer:data})); target.dispatchEvent(new DragEvent('drop', {bubbles:true,dataTransfer:data})); src.dispatchEvent(new DragEvent('dragend', {bubbles:true,dataTransfer:data})); return {ok:true,message:'Dragged'}; })()";

/// Element centre script, up to the selector.
pub const POINT_A: &'static str = "(() => { const el = document.querySelector(";

/// Element centre script, after the selector.
pub const POINT_B: &'static str = "); if (!el) return null; el.scrollIntoView({block:'center',inline:'center'}); const r=el.getBoundingClientRect(); return {x:r.left+r.width/2,y:r.top+r.height/2}; })()";

/// Drag end points script, up to the source selector.
pub const DRAG_POINTS_A: &'static str = "(() => {\n            const source = document.querySelector(";

/// Drag end points script, between the selectors.
pub const DRAG_POINTS_B: &'static str = ");\n            const target = document.querySelector(";

/// Drag end points script, after the target selector.
pub const DRAG_POINTS_C: &'static str = ");\n            if (!source || !target) return null;\n            const sourceRect = source.getBoundingClientRect();\n            const targetRect = target.getBoundingClientRect();\n            return {\n                source: {x: sourceRect.left + sourceRect.width / 2, y: sourceRect.top + sourceRect.height / 2},\n                target: {x: targetRect.left + targetRect.width / 2, y: targetRect.top + targetRect.height / 2}\n            };\n        })()";

/// The script registered on every new document in stealth mode: it hides
/// the marks of automation (`navigator.webdriver`, plugins, languages,
/// permissions, driver globals).
pub const STEALTH_SCRIPT: &'static str = "\n            Object.defineProperty(navigator, 'webdriver', {\n                get: () => undefined\n            });\n\n            Object.defineProperty(navigator, 'plugins', {\n                get: () => {\n                    const plugins = [\n                        { name: 'Chrome PDF Plugin', filename: 'internal-pdf-viewer', description: 'Portable Document Format' },\n                        { name: 'Chrome PDF Viewer', filename: 'mhjfbmdgcfjbbpaeojofohoefgiehjai', description: '' },\n                        { name: 'Native Client', filename: 'internal-nacl-plugin', description: '' }\n                    ];\n                    plugins.item = (index) => plugins[index] || null;\n                    plugins.namedItem = (name) => plugins.find(p => p.name === name) || null;\n                    plugins.refresh = () => {};\n                    return plugins;\n                }\n            });\n\n            Object.defineProperty(navigator, 'languages', {\n                get: () => ['zh-CN', 'zh', 'en']\n            });\n\n            if (window.chrome) {\n                window.chrome.runtime = {};\n            }\n\n            const originalQuery = window.navigator.permissions.query;\n            window.navigator.permissions.query = (parameters) => (\n                parameters.name === 'notifications' ?\n                    Promise.resolve({ state: Notification.permission }) :\n                    originalQuery(parameters)\n            );\n\n            delete window.__webdriver_evaluate;\n            delete window.__selenium_evaluate;\n            delete window.__webdriver_script_function;\n            delete window.__webdriver_script_func;\n            delete window.__webdriver_script_fn;\n            delete window.__fxdriver_evaluate;\n            delete window.__driver_unwrapped;\n            delete window.__webdriver_unwrapped;\n            delete window.__driver_evaluate;\n            delete window.__selenium_unwrapped;\n            delete window.__fxdriver_unwrapped;\n\n            console.log('[Stealth] Anti-detection scripts injected');\n        ";

/// The page script that builds a snapshot from the DOM (frames included),
/// up to the snapshot id.
pub const DOM_SNAPSHOT_A: &'static str = "\n(() => {\n    const snapshotId = ";

/// The page script that builds a snapshot from the DOM, after the snapshot id.
pub const DOM_SNAPSHOT_B: &'static str = ";\n    let refCounter = parseInt(document.body?.getAttribute('data-agent-counter') || '0', 10);\n    let iframeCounter = 0;\n\n    function getOrAssignRefId(element) {\n        const existing = element.getAttribute('data-agent-ref');\n        const refId = existing || ('e' + (++refCounter));\n        try {\n            element.setAttribute('data-agent-ref', refId);\n            element.setAttribute('data-agent-snapshot', snapshotId);\n        } catch (e) {}\n        return refId;\n    }\n\n    function getBounds(el) {\n        try {\n            const r = el.getBoundingClientRect();\n            return { x: r.x, y: r.y, width: r.width, height: r.height };\n        } catch (e) {\n            return null;\n        }\n    }\n\n    function getInputRole(el) {\n        const typeRoles = {\n            button: 'button', submit: 'button', reset: 'button',\n            checkbox: 'checkbox', radio: 'radio', range: 'slider',\n            number: 'spinbutton', search: 'searchbox', email: 'textbox',\n            password: 'textbox', tel: 'textbox', text: 'textbox', url: 'textbox'\n        };\n        return typeRoles[(el.type || 'text').toLowerCase()] || 'textbox';\n    }\n\n    function getAriaRole(el) {\n        try {\n            const explicit = el.getAttribute('role');\n            if (explicit) return explicit;\n            const tag = el.tagName.toLowerCase();\n            const tagRoles = {\n                a: el.hasAttribute('href') ? 'link' : null,\n                button: 'button', input: getInputRole(el), select: 'combobox',\n                textarea: 'textbox', img: 'img', h1: 'heading', h2: 'heading',\n                h3: 'heading', h4: 'heading', h5: 'heading', h6: 'heading',\n                nav: 'navigation', main: 'main', header: 'banner',\n                footer: 'contentinfo', aside: 'complementary', form: 'form',\n                table: 'table', ul: 'list', ol: 'list', li: 'listitem',\n                dialog: 'dialog', summary: 'button', details: 'group',\n                iframe: 'iframe', frame: 'iframe'\n            };\n            return tagRoles[tag] || null;\n        } catch (e) {\n            return null;\n        }\n    }\n\n    function getAccessibleName(el) {\n        try {\n            let n = el.getAttribute('aria-label');\n            if (n) return n.trim();\n\n            const lby = el.getAttribute('aria-labelledby');\n            if (lby) {\n                const lEl = document.getElementById(lby);\n                if (lEl) return lEl.textContent.trim();\n            }\n\n            if (el.id) {\n                const label = document.querySelector('label[for=\"' + el.id + '\"]');\n                if (label) return label.textContent.trim();\n            }\n\n            const tag = el.tagName.toLowerCase();\n            if ((tag === 'input' || tag === 'textarea') && !el.getAttribute('for')) {\n                const p = el.closest('label');\n                if (p) {\n                    const t = p.textContent.trim();\n                    if (t) return t;\n                }\n            }\n\n            n = el.getAttribute('title');\n            if (n) return n.trim();\n            n = el.getAttribute('placeholder');\n            if (n) return n.trim();\n            n = el.getAttribute('alt');\n            if (n) return n.trim();\n            n = el.getAttribute('name');\n            if (n) return n.trim();\n\n            if (['button', 'a', 'summary'].includes(tag)) {\n                return el.textContent.trim().substring(0, 100);\n            }\n\n            return '';\n        } catch (e) {\n            return '';\n        }\n    }\n\n    function isVisible(el) {\n        try {\n            const s = window.getComputedStyle(el);\n            return s.display !== 'none' && s.visibility !== 'hidden' && s.opacity !== '0';\n        } catch (e) {\n            return false;\n        }\n    }\n\n    function isInteractive(role, el) {\n        const interactiveRoles = [\n            'button', 'link', 'checkbox', 'radio', 'combobox', 'textbox', 'searchbox',\n            'slider', 'spinbutton', 'menuitem', 'tab', 'option', 'iframe'\n        ];\n        if (interactiveRoles.includes(role)) return true;\n\n        try {\n            const tag = el.tagName.toLowerCase();\n            if (['a', 'button', 'input', 'select', 'textarea', 'iframe'].includes(tag) && !el.disabled) {\n                return true;\n            }\n            if (el.hasAttribute('onclick') || el.getAttribute('tabindex') === '0') {\n                return true;\n            }\n        } catch (e) {}\n\n        return false;\n    }\n\n    function processElement(el, depth = 0) {\n        if (depth > 50) return null;\n\n        if (!isVisible(el)) return null;\n\n        const role = getAriaRole(el);\n        const name = getAccessibleName(el);\n\n        if (!role && !name) return null;\n\n        const refId = getOrAssignRefId(el);\n        const node = {\n            ref_id: refId,\n            role: role || 'generic',\n            name: name,\n            value: null,\n            description: null,\n            bounds: getBounds(el),\n            attributes: {},\n            children: []\n        };\n\n        try {\n            node.attributes['tag'] = el.tagName.toLowerCase();\n            if (el.value !== undefined && el.value !== null) {\n                node.value = String(el.value);\n            }\n            if (isInteractive(role, el)) {\n                node.attributes['interactive'] = 'true';\n            }\n            if (el.disabled) {\n                node.attributes['disabled'] = 'true';\n            }\n            if (el.readOnly) {\n                node.attributes['readonly'] = 'true';\n            }\n        } catch (e) {}\n\n        return node;\n    }\n\n    function processChildren(parent, el, depth = 0) {\n        if (depth > 50) return;\n\n        try {\n            for (const child of el.children) {\n                const node = processElement(child, depth);\n                if (node) {\n                    parent.children.push(node);\n                    processChildren(node, child, depth + 1);\n                } else {\n                    processChildren(parent, child, depth + 1);\n                }\n            }\n        } catch (e) {}\n    }\n\n    function processIframe(iframe) {\n        iframeCounter++;\n        const iframeId = 'iframe' + iframeCounter;\n\n        const node = {\n            ref_id: iframeId,\n            role: 'iframe',\n            name: getAccessibleName(iframe) || iframe.src || 'iframe',\n            value: null,\n            description: null,\n            bounds: getBounds(iframe),\n            attributes: {\n                tag: 'iframe',\n                interactive: 'true'\n            },\n            children: []\n        };\n\n        try {\n            const iframeDoc = iframe.contentDocument || iframe.contentWindow.document;\n            if (iframeDoc && iframeDoc.body) {\n                const iframeRoot = processElement(iframeDoc.body);\n                if (iframeRoot) {\n                    processChildren(iframeRoot, iframeDoc.body, 0);\n                    node.children.push(iframeRoot);\n                }\n            }\n        } catch (e) {\n            node.attributes['cross_origin'] = 'true';\n            if (iframe.src) {\n                node.attributes['src'] = iframe.src;\n            }\n        }\n\n        return node;\n    }\n\n    const body = document.body;\n    if (!body) {\n        return { nodes: [], url: window.location.href, title: document.title, iframe_count: 0 };\n    }\n\n    const result = {\n        nodes: [],\n        url: window.location.href,\n        title: document.title,\n        iframe_count: 0\n    };\n\n    const root = processElement(body) || {\n        ref_id: getOrAssignRefId(body),\n        role: 'document',\n        name: document.title || '',\n        value: null,\n        description: null,\n        bounds: getBounds(body),\n        attributes: { tag: 'body' },\n        children: []\n    };\n    processChildren(root, body, 0);\n    result.nodes.push(root);\n\n    const iframes = document.querySelectorAll('iframe');\n    for (const iframe of iframes) {\n        try {\n            const iframeNode = processIframe(iframe);\n            result.nodes.push(iframeNode);\n        } catch (e) {}\n    }\n\n    result.iframe_count = iframeCounter;\n\n    try {\n        if (document.body) {\n            document.body.setAttribute('data-agent-counter', String(refCounter));\n        }\n    } catch (e) {}\n\n    return result;\n})()\n";

/// Element bounds script, up to the selector.
pub const BOUNDS_A: &'static str = "(() => {\n                    const el = document.querySelector(";

/// Element bounds script, after the selector.
pub const BOUNDS_B: &'static str = ");\n                    if (!el) return null;\n                    const r = el.getBoundingClientRect();\n                    return {x:r.x, y:r.y, width:r.width, height:r.height};\n                })()";

/// Actionability script, up to the selector.
pub const ACTIONABLE_A: &'static str = "(async () => {\n            const selector = ";

/// Actionability script, between the selector and the editable flag.
pub const ACTIONABLE_B: &'static str = ";\n            const requireEditable = ";

/// Actionability script, between the editable flag and the timeout.
pub const ACTIONABLE_C: &'static str = ";\n            const deadline = performance.now() + ";

/// Actionability script, after the timeout.
pub const ACTIONABLE_D: &'static str = ";\n            let lastReason = 'element not found';\n            while (performance.now() <= deadline) {\n                const el = document.querySelector(selector);\n                if (!el) { lastReason = 'element not found'; await new Promise(r => setTimeout(r, 50)); continue; }\n                const style = getComputedStyle(el);\n                const rect1 = el.getBoundingClientRect();\n                const visible = style.visibility !== 'hidden' && style.display !== 'none' &&\n                    style.opacity !== '0' && style.pointerEvents !== 'none' && rect1.width > 0 && rect1.height > 0;\n                if (!visible) { lastReason = 'element is not visible'; await new Promise(r => setTimeout(r, 50)); continue; }\n                const inViewport = rect1.bottom > 0 && rect1.right > 0 && rect1.top < innerHeight && rect1.left < innerWidth;\n                if (!inViewport) {\n                    lastReason = 'element is outside the viewport';\n                    el.scrollIntoView({block:'center', inline:'center', behavior:'instant'});\n                    await new Promise(requestAnimationFrame);\n                    await new Promise(requestAnimationFrame);\n                    continue;\n                }\n                await new Promise(requestAnimationFrame);\n                await new Promise(requestAnimationFrame);\n                const rect2 = el.getBoundingClientRect();\n                const stable = Math.abs(rect1.x - rect2.x) < 0.5 && Math.abs(rect1.y - rect2.y) < 0.5 &&\n                    Math.abs(rect1.width - rect2.width) < 0.5 && Math.abs(rect1.height - rect2.height) < 0.5;\n                if (!stable) { lastReason = 'element is moving or animating'; continue; }\n                const disabled = el.disabled === true || el.matches?.(':disabled') || el.getAttribute('aria-disabled') === 'true';\n                if (disabled) { lastReason = 'element is disabled'; await new Promise(r => setTimeout(r, 50)); continue; }\n                if (requireEditable) {\n                    const editable = el.isContentEditable ||\n                        ((el instanceof HTMLInputElement || el instanceof HTMLTextAreaElement) && !el.readOnly);\n                    if (!editable) { lastReason = 'element is not editable'; await new Promise(r => setTimeout(r, 50)); continue; }\n                }\n                const x = Math.max(0, Math.min(innerWidth - 1, rect2.left + rect2.width / 2));\n                const y = Math.max(0, Math.min(innerHeight - 1, rect2.top + rect2.height / 2));\n                const hit = document.elementFromPoint(x, y);\n                if (!hit || (hit !== el && !el.contains(hit))) {\n                    lastReason = 'element does not receive pointer events';\n                    await new Promise(r => setTimeout(r, 50));\n                    continue;\n                }\n                return {ok:true};\n            }\n            return {ok:false, reason:lastReason};\n        })()";

/// In-frame focus-and-select script, up to the selector.
pub const FOCUS_SELECT_A: &'static str = "(() => {\n            const el = document.querySelector(";

/// In-frame focus-and-select script, up to the clear flag.
pub const FOCUS_SELECT_B: &'static str = ");\n            if (!el) return false;\n            el.focus();\n            if (";

/// In-frame focus-and-select script, after the clear flag.
pub const FOCUS_SELECT_C: &'static str = ") {\n                if (typeof el.select === 'function') el.select();\n                else {\n                    const range = document.createRange();\n                    range.selectNodeContents(el);\n                    const selection = getSelection();\n                    selection.removeAllRanges();\n                    selection.addRange(range);\n                }\n            }\n            return true;\n        })()";

/// In-frame focus script, up to the selector.
pub const FOCUS_ONLY_A: &'static str = "(() => { const el=document.querySelector(";

/// In-frame focus script, after the selector.
pub const FOCUS_ONLY_B: &'static str = "); if (!el) return false; el.focus(); return true; })()";

/// Page double-click script, up to the selector.
pub const EL_DBLCLICK_A: &'static str = "(() => {\n                    const el = document.querySelector(";

/// Page double-click script, after the selector.
pub const EL_DBLCLICK_B: &'static str = ");\n                    if (!el) throw new Error('Not found');\n                    el.dispatchEvent(new MouseEvent('dblclick', {bubbles:true,cancelable:true,view:window}));\n                })()";

/// Page right-click script, after the selector.
pub const EL_RIGHTCLICK_B: &'static str = ");\n                    if (!el) throw new Error('Not found');\n                    el.dispatchEvent(new MouseEvent('contextmenu', {bubbles:true,cancelable:true,button:2}));\n                })()";

/// Page focus-for-typing script, up to the selector.
pub const EL_TYPE_A: &'static str = "(() => {\n                    const el = document.querySelector(";

/// Page focus-for-typing script, up to the clear flag.
pub const EL_TYPE_B: &'static str = ");\n                    if (!el) return false;\n                    el.focus();\n                    if (";

/// Page focus-for-typing script, after the clear flag.
pub const EL_TYPE_C: &'static str = ") {\n                        if (typeof el.select === 'function') el.select();\n                        else {\n                            const range = document.createRange();\n                            range.selectNodeContents(el);\n                            const selection = getSelection();\n                            selection.removeAllRanges();\n                            selection.addRange(range);\n                        }\n                    } else if (typeof el.setSelectionRange === 'function') {\n                        const end = String(el.value || '').length;\n                        el.setSelectionRange(end, end);\n                    }\n                    return true;\n                })()";

/// Page focus script, after the selector.
pub const EL_FOCUS_B: &'static str = ");\n                    if (!el) throw new Error('Not found');\n                    el.focus();\n                })()";

/// Page selection script, up to the values.
pub const EL_SELECT_B: &'static str = ");\n                    if (!el) throw new Error('Not found');\n                    const vals = ";

/// Page selection script, after the values.
pub const EL_SELECT_C: &'static str = ";\n                    for (let i = 0; i < el.options.length; i++)\n                        el.options[i].selected = vals.includes(el.options[i].value);\n                    el.dispatchEvent(new Event('change', {bubbles:true}));\n                })()";

/// A lowercase hexadecimal digit.
pub open spec fn hex_digit(v: int) -> char {
    "0123456789abcdef"@[v]
}

/// A character inside a JSON string literal as `serde_json` writes it:
/// quote and backslash escaped with a backslash, the control characters
/// with a short escape where JSON has one and as `\u00XX` otherwise, every
/// other character as it is.
pub open spec fn json_char(c: char) -> Seq<char> {
    if c == '"' {
        seq!['\\', '"']
    } else if c == '\\' {
        seq!['\\', '\\']
    } else if c == '\n' {
        seq!['\\', 'n']
    } else if c == '\r' {
        seq!['\\', 'r']
    } else if c == '\t' {
        seq!['\\', 't']
    } else if (c as u32) == 8 {
        seq!['\\', 'b']
    } else if (c as u32) == 12 {
        seq!['\\', 'f']
    } else if (c as u32) < 32 {
        seq!['\\', 'u', '0', '0', hex_digit((c as u32) as int / 16), hex_digit((c as u32) as int % 16)]
    } else {
        seq![c]
    }
}

/// The characters of a string, each escaped for a JSON string literal.
pub open spec fn json_escaped(s: Seq<char>) -> Seq<char>
    decreases s.len(),
{
    if s.len() == 0 {
        Seq::empty()
    } else {
        json_escaped(s.drop_last()) + json_char(s.last())
    }
}

/// The JSON string literal of a string.
pub open spec fn json_literal(s: Seq<char>) -> Seq<char> {
    seq!['"'] + json_escaped(s) + seq!['"']
}

/// The JSON string literals of a list of strings, separated by commas.
pub open spec fn json_items(v: Seq<Seq<char>>) -> Seq<char>
    decreases v.len(),
{
    if v.len() == 0 {
        Seq::empty()
    } else if v.len() == 1 {
        json_literal(v[0])
    } else {
        json_items(v.drop_last()) + seq![','] + json_literal(v.last())
    }
}

/// What `serde_json::to_string` makes of a string: its JSON string literal
/// (writing a string into memory never fails).
pub open spec fn json_text(s: Seq<char>) -> Result<Seq<char>, Seq<char>> {
    Ok(json_literal(s))
}

/// What `serde_json::to_string` makes of a list of strings: a compact JSON
/// array of their literals.
pub open spec fn json_text_list(v: Seq<Seq<char>>) -> Result<Seq<char>, Seq<char>> {
    Ok(seq!['['] + json_items(v) + seq![']'])
}

/// A string as a JSON string literal, with `serde_json::to_string`; an error
/// would come back as its display text. The contract claims the result is
/// [`json_text`] of the string: it succeeds (a string is written into an
/// in-memory buffer, which never fails) with the escapes of `serde_json`'s
/// compact formatter.
#[verifier::external_body]
fn json_string(s: &str) -> (r: Result<String, String>)
    ensures
        r is Ok,
        match r {
            Ok(t) => json_text(s@) == Ok::<Seq<char>, Seq<char>>(t@),
            Err(e) => json_text(s@) == Err::<Seq<char>, Seq<char>>(e@),
        },
{
    serde_json::to_string(s).map_err(|e| e.to_string())
}

/// The models of a list of strings.
pub open spec fn strings_of(v: Seq<String>) -> Seq<Seq<char>> {
    Seq::new(v.len(), |i: int| v[i]@)
}

/// A list of strings as a JSON array, with `serde_json::to_string`; an error
/// would come back as its display text. The contract claims the result is
/// [`json_text_list`] of the strings: it succeeds (strings are written into
/// an in-memory buffer, which never fails) as a compact array.
#[verifier::external_body]
fn json_string_list(v: &Vec<String>) -> (r: Result<String, String>)
    ensures
        r is Ok,
        match r {
            Ok(t) => json_text_list(strings_of(v@)) == Ok::<Seq<char>, Seq<char>>(t@),
            Err(e) => json_text_list(strings_of(v@)) == Err::<Seq<char>, Seq<char>>(e@),
        },
{
    serde_json::to_string(v).map_err(|e| e.to_string())
}

/// Why a script could not be built.
pub enum ScriptFailure {
    /// A value could not be written as JSON (the serializer's message).
    Serialize(Seq<char>),
    /// An invalid parameter (the message).
    Invalid(Seq<char>),
    /// The action is carried out without a script.
    Unhandled,
}

/// Whether an error is the one a script failure stands for.
pub open spec fn failure_is(f: ScriptFailure, e: Error) -> bool {
    match f {
        ScriptFailure::Serialize(m) => e matches Error::Serialize(x) && x@ == m,
        ScriptFailure::Invalid(m) => e matches Error::InvalidParameter(x) && x@ == m,
        ScriptFailure::Unhandled => e matches Error::Other(x) && x@ == "Wait action was not handled"@,
    }
}

/// Whether a built script (or its error) is the one specified.
pub open spec fn script_is(spec: Result<Seq<char>, ScriptFailure>, r: Result<String, Error>) -> bool {
    match spec {
        Ok(s) => r matches Ok(t) && t@ == s,
        Err(f) => r matches Err(e) && failure_is(f, e),
    }
}

/// An in-frame element script around `body`.
pub open spec fn el_ctx(sj: Seq<char>, body: Seq<char>) -> Seq<char> {
    CTX_OPEN@ + sj + CTX_GUARD@ + body + CTX_CLOSE@
}

/// A boolean as JavaScript writes it.
pub open spec fn bool_text(b: bool) -> Seq<char> {
    if b {
        "true"@
    } else {
        "false"@
    }
}

/// The script that carries out `a` on the element with JSON-quoted
/// selector `sj`, inside a frame (see [`context_script`]).
pub open spec fn context_body(a: ActionKind, sj: Seq<char>, sid: Option<Seq<char>>) -> Result<Seq<char>, ScriptFailure> {
    match a {
        ActionKind::Click => Ok(el_ctx(sj, CLICK_BODY@)),
        ActionKind::DoubleClick => Ok(el_ctx(sj, DBLCLICK_BODY@)),
        ActionKind::RightClick => Ok(el_ctx(sj, RIGHTCLICK_BODY@)),
        ActionKind::Hover => Ok(el_ctx(sj, HOVER_BODY@)),
        ActionKind::Focus => Ok(el_ctx(sj, FOCUS_BODY@)),
        ActionKind::Type { text, clear_first } => match json_text(text@) {
            Err(m) => Err(ScriptFailure::Serialize(m)),
            Ok(tj) => Ok(
                el_ctx(
                    sj,
                    TYPE_A@ + bool_text(
                        match clear_first {
                            Some(b) => b,
                            None => false,
                        },
                    ) + TYPE_B@ + tj + TYPE_C@,
                ),
            ),
        },
        ActionKind::Press { key } => match json_text(key@) {
            Err(m) => Err(ScriptFailure::Serialize(m)),
            Ok(kj) => Ok(el_ctx(sj, PRESS_A@ + kj + PRESS_B@ + kj + PRESS_C@)),
        },
        ActionKind::Select { values } => match json_text_list(strings_of(values@)) {
            Err(m) => Err(ScriptFailure::Serialize(m)),
            Ok(vj) => Ok(el_ctx(sj, SELECT_A@ + vj + SELECT_B@)),
        },
        ActionKind::Scroll { direction, amount } => {
            let n: int = match amount {
                Some(x) => x as int,
                None => 300,
            };
            let dir = match direction {
                Some(d) => d@,
                None => "down"@,
            };
            match scroll_offsets(dir, n) {
                Some((dx, dy)) => Ok(SCROLL_A@ + signed_decimal(dx) + SCROLL_B@ + signed_decimal(dy) + SCROLL_C@),
                None => Err(ScriptFailure::Invalid("Invalid scroll direction: "@ + dir)),
            }
        },
        ActionKind::Drag { target_ref_id } => match json_text(selector_of(target_ref_id@, sid)) {
            Err(m) => Err(ScriptFailure::Serialize(m)),
            Ok(tj) => Ok(DRAG_A@ + sj + DRAG_B@ + tj + DRAG_C@),
        },
        ActionKind::Wait { .. } => Err(ScriptFailure::Unhandled),
    }
}

/// The script that carries out `a` on the element `selector` inside a
/// frame: the selector and every value are JSON-quoted; a scroll goes to
/// the window by the direction's offsets (`down` and 300 pixels by default);
/// a drag names the target by its reference in the same snapshot.
pub open spec fn context_script(selector: Seq<char>, a: ActionKind, sid: Option<Seq<char>>) -> Result<Seq<char>, ScriptFailure> {
    match json_text(selector) {
        Err(m) => Err(ScriptFailure::Serialize(m)),
        Ok(sj) => context_body(a, sj, sid),
    }
}

/// An in-frame element script around `body`.
fn el_ctx_exec(sj: &String, body: &str) -> (r: String)
    ensures
        r@ == el_ctx(sj@, body@),
{
    let mut s = String::from_str(CTX_OPEN);
    s.append(sj.as_str());
    s.append(CTX_GUARD);
    s.append(body);
    s.append(CTX_CLOSE);
    s
}

/// A boolean as JavaScript writes it.
fn bool_string(b: bool) -> (r: String)
    ensures
        r@ == bool_text(b),
{
    if b {
        String::from_str("true")
    } else {
        String::from_str("false")
    }
}

/// The models of an optional string slice.
pub open spec fn opt_str(o: Option<&str>) -> Option<Seq<char>> {
    match o {
        Some(s) => Some(s@),
        None => None,
    }
}

/// The script for an action inside a frame (see [`context_script`]).
pub fn context_action_script(selector: &str, action: &ActionKind, snapshot_id: Option<&str>) -> (r: Result<String, Error>)
    requires
        action_in_range(*action),
    ensures
        !(r matches Err(Error::Serialize(_))),
        script_is(context_script(selector@, *action, opt_str(snapshot_id)), r),
{
    let sj = match json_string(selector) {
        Ok(j) => j,
        Err(e) => {
            return Err(Error::Serialize(e));
        },
    };
    match action {
        ActionKind::Click => Ok(el_ctx_exec(&sj, CLICK_BODY)),
        ActionKind::DoubleClick => Ok(el_ctx_exec(&sj, DBLCLICK_BODY)),
        ActionKind::RightClick => Ok(el_ctx_exec(&sj, RIGHTCLICK_BODY)),
        ActionKind::Hover => Ok(el_ctx_exec(&sj, HOVER_BODY)),
        ActionKind::Focus => Ok(el_ctx_exec(&sj, FOCUS_BODY)),
        ActionKind::Type { text, clear_first } => {
            let tj = match json_string(text.as_str()) {
                Ok(j) => j,
                Err(e) => {
                    return Err(Error::Serialize(e));
                },
            };
            let clear = match clear_first {
                Some(b) => *b,
                None => false,
            };
            let mut body = String::from_str(TYPE_A);
            let flag = bool_string(clear);
            body.append(flag.as_str());
            body.append(TYPE_B);
            body.append(tj.as_str());
            body.append(TYPE_C);
            Ok(el_ctx_exec(&sj, body.as_str()))
        },
        ActionKind::Press { key } => {
            let kj = match json_string(key.as_str()) {
                Ok(j) => j,
                Err(e) => {
                    return Err(Error::Serialize(e));
                },
            };
            let mut body = String::from_str(PRESS_A);
            body.append(kj.as_str());
            body.append(PRESS_B);
            body.append(kj.as_str());
            body.append(PRESS_C);
            Ok(el_ctx_exec(&sj, body.as_str()))
        },
        ActionKind::Select { values } => {
            let vj = match json_string_list(values) {
                Ok(j) => j,
                Err(e) => {
                    return Err(Error::Serialize(e));
                },
            };
            let mut body = String::from_str(SELECT_A);
            body.append(vj.as_str());
            body.append(SELECT_B);
            Ok(el_ctx_exec(&sj, body.as_str()))
        },
        ActionKind::Scroll { direction, amount } => {
            let n: i32 = match amount {
                Some(a) => *a,
                None => 300,
            };
            let dir: &str = match direction {
                Some(d) => d.as_str(),
                None => "down",
            };
            let offsets: Option<(i32, i32)> = if str_eq(dir, "up") {
                Some((0, -n))
            } else if str_eq(dir, "down") {
                Some((0, n))
            } else if str_eq(dir, "left") {
                Some((-n, 0))
            } else if str_eq(dir, "right") {
                Some((n, 0))
            } else {
                None
            };
            match offsets {
                Some((dx, dy)) => {
                    let mut s = String::from_str(SCROLL_A);
                    let x = signed_decimal_string(dx as i64);
                    s.append(x.as_str());
                    s.append(SCROLL_B);
                    let y = signed_decimal_string(dy as i64);
                    s.append(y.as_str());
                    s.append(SCROLL_C);
                    Ok(s)
                },
                None => {
                    let mut m = String::from_str("Invalid scroll direction: ");
                    m.append(dir);
                    Err(Error::InvalidParameter(m))
                },
            }
        },
        ActionKind::Drag { target_ref_id } => {
            let target = element_selector(target_ref_id.as_str(), snapshot_id);
            let tj = match json_string(target.as_str()) {
                Ok(j) => j,
                Err(e) => {
                    return Err(Error::Serialize(e));
                },
            };
            let mut s = String::from_str(DRAG_A);
            s.append(sj.as_str());
            s.append(DRAG_B);
            s.append(tj.as_str());
            s.append(DRAG_C);
            Ok(s)
        },
        ActionKind::Wait { .. } => Err(Error::Other(String::from_str("Wait action was not handled"))),
    }
}

/// What an in-frame action script answered: success with its message
/// (`Action completed` when it gave none), or the element error it reported
/// (`Element action failed` when it gave none).
pub fn context_action_outcome(ok: bool, message: Option<String>, error: Option<String>) -> (r: Result<
    ActionResult,
    Error,
>)
    ensures
        ok ==> (r matches Ok(a) && a.success && a.message@ == (match message {
            Some(m) => m@,
            None => "Action completed"@,
        })),
        !ok ==> (r matches Err(Error::ElementNotFound(m)) && m@ == (match error {
            Some(e) => e@,
            None => "Element action failed"@,
        })),
{
    if ok {
        let m = match message {
            Some(m) => m,
            None => String::from_str("Action completed"),
        };
        Ok(ActionResult { success: true, message: m })
    } else {
        let e = match error {
            Some(e) => e,
            None => String::from_str("Element action failed"),
        };
        Err(Error::ElementNotFound(e))
    }
}

/// The script that scrolls an element into view and gives its centre.
pub fn element_center_script(selector: &str) -> (r: Result<String, Error>)
    ensures
        r is Ok,
        match json_text(selector@) {
            Ok(sj) => r matches Ok(s) && s@ == POINT_A@ + sj + POINT_B@,
            Err(m) => r matches Err(Error::Serialize(x)) && x@ == m,
        },
{
    match json_string(selector) {
        Ok(sj) => {
            let mut s = String::from_str(POINT_A);
            s.append(sj.as_str());
            s.append(POINT_B);
            Ok(s)
        },
        Err(e) => Err(Error::Serialize(e)),
    }
}

/// The script that gives the bounding box of an element (null when the
/// selector finds none); the selector is written as a Rust string literal.
pub fn element_bounds_script(selector: &str) -> (r: String)
    ensures
        r@ == BOUNDS_A@ + debug_quoted(selector@) + BOUNDS_B@,
{
    let mut s = String::from_str(BOUNDS_A);
    let q = debug_string(selector);
    s.append(q.as_str());
    s.append(BOUNDS_B);
    s
}

/// The script that gives the centres of a drag's source and target.
pub fn drag_points_script(source: &str, target: &str) -> (r: Result<String, Error>)
    ensures
        r is Ok,
        match (json_text(source@), json_text(target@)) {
            (Ok(a), Ok(b)) => r matches Ok(s) && s@ == DRAG_POINTS_A@ + a + DRAG_POINTS_B@ + b + DRAG_POINTS_C@,
            (Err(m), _) => r matches Err(Error::Serialize(x)) && x@ == m,
            (Ok(_), Err(m)) => r matches Err(Error::Serialize(x)) && x@ == m,
        },
{
    let a = match json_string(source) {
        Ok(j) => j,
        Err(e) => {
            return Err(Error::Serialize(e));
        },
    };
    let b = match json_string(target) {
        Ok(j) => j,
        Err(e) => {
            return Err(Error::Serialize(e));
        },
    };
    let mut s = String::from_str(DRAG_POINTS_A);
    s.append(a.as_str());
    s.append(DRAG_POINTS_B);
    s.append(b.as_str());
    s.append(DRAG_POINTS_C);
    Ok(s)
}

/// The in-frame script that focuses an element before typing, selecting its
/// content first when it is to be cleared.
pub fn focus_for_typing_script(selector: &str, clear_first: bool) -> (r: Result<String, Error>)
    ensures
        r is Ok,
        match json_text(selector@) {
            Ok(sj) => r matches Ok(s) && s@ == FOCUS_SELECT_A@ + sj + FOCUS_SELECT_B@ + bool_text(clear_first)
                + FOCUS_SELECT_C@,
            Err(m) => r matches Err(Error::Serialize(x)) && x@ == m,
        },
{
    match json_string(selector) {
        Ok(sj) => {
            let mut s = String::from_str(FOCUS_SELECT_A);
            s.append(sj.as_str());
            s.append(FOCUS_SELECT_B);
            let flag = bool_string(clear_first);
            s.append(flag.as_str());
            s.append(FOCUS_SELECT_C);
            Ok(s)
        },
        Err(e) => Err(Error::Serialize(e)),
    }
}

/// The script that waits, inside the page, until the element a selector
/// finds can take input: present, visible, inside the viewport (it is
/// scrolled there), not moving, enabled, editable when `require_editable`,
/// and hit by the pointer at its center. It gives `{ok:true}`, or
/// `{ok:false, reason}` with the last reason once `timeout_ms` has passed.
pub fn actionable_script(selector: &str, require_editable: bool, timeout_ms: u64) -> (r: Result<String, Error>)
    ensures
        r is Ok,
        match json_text(selector@) {
            Ok(sj) => r matches Ok(s) && s@ == ACTIONABLE_A@ + sj + ACTIONABLE_B@ + bool_text(require_editable)
                + ACTIONABLE_C@ + decimal(timeout_ms as nat) + ACTIONABLE_D@,
            Err(m) => r matches Err(Error::Serialize(x)) && x@ == m,
        },
{
    match json_string(selector) {
        Ok(sj) => {
            let mut s = String::from_str(ACTIONABLE_A);
            s.append(sj.as_str());
            s.append(ACTIONABLE_B);
            let flag = bool_string(require_editable);
            s.append(flag.as_str());
            s.append(ACTIONABLE_C);
            let t = decimal_string(timeout_ms);
            s.append(t.as_str());
            s.append(ACTIONABLE_D);
            Ok(s)
        },
        Err(e) => Err(Error::Serialize(e)),
    }
}

/// The DOM snapshot script for a snapshot id (written as a JSON string).
pub fn dom_snapshot_script(snapshot_id: &str) -> (r: Result<String, Error>)
    ensures
        r is Ok,
        match json_text(snapshot_id@) {
            Ok(j) => r matches Ok(s) && s@ == DOM_SNAPSHOT_A@ + j + DOM_SNAPSHOT_B@,
            Err(m) => r matches Err(Error::Serialize(x)) && x@ == m,
        },
{
    match json_string(snapshot_id) {
        Ok(j) => {
            let mut s = String::from_str(DOM_SNAPSHOT_A);
            s.append(j.as_str());
            s.append(DOM_SNAPSHOT_B);
            Ok(s)
        },
        Err(e) => Err(Error::Serialize(e)),
    }
}

/// What an actionability check reported: success, or the element is not
/// actionable for the reason given (a timeout when none is).
pub fn actionable_outcome(ok: bool, reason: Option<String>) -> (r: Result<(), Error>)
    ensures
        ok ==> r is Ok,
        !ok ==> (r matches Err(Error::ElementNotActionable(m)) && m@ == (match reason {
            Some(x) => x@,
            None => "actionability check timed out"@,
        })),
{
    if ok {
        Ok(())
    } else {
        match reason {
            Some(x) => Err(Error::ElementNotActionable(x)),
            None => Err(Error::ElementNotActionable(String::from_str("actionability check timed out"))),
        }
    }
}

/// The in-frame script that focuses an element before a key press.
pub fn focus_script(selector: &str) -> (r: Result<String, Error>)
    ensures
        r is Ok,
        match json_text(selector@) {
            Ok(sj) => r matches Ok(s) && s@ == FOCUS_ONLY_A@ + sj + FOCUS_ONLY_B@,
            Err(m) => r matches Err(Error::Serialize(x)) && x@ == m,
        },
{
    match json_string(selector) {
        Ok(sj) => {
            let mut s = String::from_str(FOCUS_ONLY_A);
            s.append(sj.as_str());
            s.append(FOCUS_ONLY_B);
            Ok(s)
        },
        Err(e) => Err(Error::Serialize(e)),
    }
}

/// The page script for an element action that needs one: double click,
/// right click, focusing for typing, focus and selection, the selector
/// quoted as debug output does; clicks, key presses and hovers need none.
pub open spec fn page_script(selector: Seq<char>, a: ActionKind) -> Result<Option<Seq<char>>, Seq<char>> {
    let q = debug_quoted(selector);
    match a {
        ActionKind::DoubleClick => Ok(Some(EL_DBLCLICK_A@ + q + EL_DBLCLICK_B@)),
        ActionKind::RightClick => Ok(Some(EL_DBLCLICK_A@ + q + EL_RIGHTCLICK_B@)),
        ActionKind::Type { clear_first, .. } => Ok(
            Some(
                EL_TYPE_A@ + q + EL_TYPE_B@ + bool_text(
                    match clear_first {
                        Some(b) => b,
                        None => false,
                    },
                ) + EL_TYPE_C@,
            ),
        ),
        ActionKind::Focus => Ok(Some(EL_DBLCLICK_A@ + q + EL_FOCUS_B@)),
        ActionKind::Select { values } => match json_text_list(strings_of(values@)) {
            Ok(vj) => Ok(Some(EL_DBLCLICK_A@ + q + EL_SELECT_B@ + vj + EL_SELECT_C@)),
            Err(m) => Err(m),
        },
        _ => Ok(None),
    }
}

/// The page script for an element action (see [`page_script`]); a value
/// that cannot be written as JSON is a serialization error. Scrolls, waits
/// and drags never reach an element action.
pub fn element_action_script(selector: &str, action: &ActionKind) -> (r: Result<Option<String>, Error>)
    requires
        !(action is Scroll || action is Wait || action is Drag),
    ensures
        !(r matches Err(Error::Serialize(_))),
        match page_script(selector@, *action) {
            Ok(Some(s)) => r matches Ok(Some(t)) && t@ == s,
            Ok(None) => r matches Ok(None),
            Err(m) => r matches Err(Error::Serialize(x)) && x@ == m,
        },
{
    let q = debug_string(selector);
    match action {
        ActionKind::DoubleClick => {
            let mut s = String::from_str(EL_DBLCLICK_A);
            s.append(q.as_str());
            s.append(EL_DBLCLICK_B);
            Ok(Some(s))
        },
        ActionKind::RightClick => {
            let mut s = String::from_str(EL_DBLCLICK_A);
            s.append(q.as_str());
            s.append(EL_RIGHTCLICK_B);
            Ok(Some(s))
        },
        ActionKind::Type { clear_first, .. } => {
            let clear = match clear_first {
                Some(b) => *b,
                None => false,
            };
            let mut s = String::from_str(EL_TYPE_A);
            s.append(q.as_str());
            s.append(EL_TYPE_B);
            let flag = bool_string(clear);
            s.append(flag.as_str());
            s.append(EL_TYPE_C);
            Ok(Some(s))
        },
        ActionKind::Focus => {
            let mut s = String::from_str(EL_DBLCLICK_A);
            s.append(q.as_str());
            s.append(EL_FOCUS_B);
            Ok(Some(s))
        },
        ActionKind::Select { values } => {
            let vj = match json_string_list(values) {
                Ok(j) => j,
                Err(e) => {
                    return Err(Error::Serialize(e));
                },
            };
            let mut s = String::from_str(EL_DBLCLICK_A);
            s.append(q.as_str());
            s.append(EL_SELECT_B);
            s.append(vj.as_str());
            s.append(EL_SELECT_C);
            Ok(Some(s))
        },
        _ => Ok(None),
    }
}

/// The mouse button of a pointer action.
#[derive(Debug, Clone, Copy, PartialEq, Eq, Structural)]
pub enum PointerButton {
    Left,
    Right,
}

/// How a pointer action presses: button, pressed-buttons mask, click
/// count and the message it reports.
pub struct PointerPress {
    pub button: PointerButton,
    pub buttons: i64,
    pub click_count: i64,
    pub message: String,
}

/// How a click presses: right clicks with the right button (mask 2), double
/// clicks with a click count of two, plain clicks once with the left button.
pub fn pointer_press(action: &ActionKind) -> (r: PointerPress)
    ensures
        action is RightClick ==> r.button == PointerButton::Right && r.buttons == 2 && r.click_count == 1
            && r.message@ == "Right-clicked"@,
        action is DoubleClick ==> r.button == PointerButton::Left && r.buttons == 1 && r.click_count == 2
            && r.message@ == "Double-clicked"@,
        !(action is RightClick || action is DoubleClick) ==> r.button == PointerButton::Left && r.buttons == 1
            && r.click_count == 1 && r.message@ == "Clicked"@,
{
    match action {
        ActionKind::RightClick => PointerPress {
            button: PointerButton::Right,
            buttons: 2,
            click_count: 1,
            message: String::from_str("Right-clicked"),
        },
        ActionKind::DoubleClick => PointerPress {
            button: PointerButton::Left,
            buttons: 1,
            click_count: 2,
            message: String::from_str("Double-clicked"),
        },
        _ => PointerPress {
            button: PointerButton::Left,
            buttons: 1,
            click_count: 1,
            message: String::from_str("Clicked"),
        },
    }
}

} // verus!

verus! {

/// An element that must be actionable before an in-frame action runs;
/// `editable` when it must also accept text.
pub struct ActionableWait {
    pub selector: String,
    pub editable: bool,
}

/// What an in-frame action does once its elements are actionable.
pub enum FrameOp {
    /// Drag the source element onto the target with the pointer.
    Drag { source: String, target: String },
    /// Focus the element (selecting its content first with `clear_first`),
    /// insert `text`, and report `message`.
    Type { selector: String, text: String, clear_first: bool, message: String },
    /// Focus the element, press `key`, and report `message`.
    Press { selector: String, key: String, message: String },
    /// Move the pointer onto the element; press it as `press` says, or only
    /// hover where there is no press.
    Pointer { selector: String, press: Option<PointerPress> },
    /// Run the in-frame script (or fail as it says), and report its outcome.
    Script { selector: String, script: Result<String, Error> },
}

/// How an action inside an entered iframe is carried out.
pub enum FrameStep {
    /// Wait for `ms` milliseconds, then report `message`.
    Wait { ms: u64, message: String },
    /// Wait until each listed element is actionable, in order, then do `op`.
    Act { waits: Vec<ActionableWait>, op: FrameOp },
}

/// The model of the actionability waits.
pub open spec fn waits_view(v: Seq<ActionableWait>) -> Seq<(Seq<char>, bool)> {
    Seq::new(v.len(), |i: int| (v[i].selector@, v[i].editable))
}

/// The elements an in-frame action waits for: a drag's target and then its
/// source, or the referenced element, which must be editable for typing.
pub open spec fn frame_waits(ref_id: Seq<char>, action: ActionKind, sid: Seq<char>) -> Seq<(Seq<char>, bool)> {
    let sel = selector_of(ref_id, Some(sid));
    match action {
        ActionKind::Drag { target_ref_id } => seq![(selector_of(target_ref_id@, Some(sid)), false), (sel, false)],
        ActionKind::Type { .. } => seq![(sel, true)],
        _ => seq![(sel, false)],
    }
}

/// What an in-frame action does after its waits.
pub open spec fn frame_op_is(ref_id: Seq<char>, action: ActionKind, sid: Seq<char>, op: FrameOp) -> bool {
    let sel = selector_of(ref_id, Some(sid));
    match action {
        ActionKind::Drag { target_ref_id } => op matches FrameOp::Drag { source, target } && source@ == sel
            && target@ == selector_of(target_ref_id@, Some(sid)),
        ActionKind::Type { text, clear_first } => op matches FrameOp::Type { selector, text: t, clear_first: c, message }
            && selector@ == sel && t@ == text@ && c == (match clear_first {
            Some(b) => b,
            None => false,
        }) && message@ == "Typed "@ + decimal(text@.len()) + " characters"@,
        ActionKind::Press { key } => op matches FrameOp::Press { selector, key: k, message } && selector@ == sel
            && k@ == key@ && message@ == "Pressed "@ + key@,
        ActionKind::Hover => op matches FrameOp::Pointer { selector, press } && selector@ == sel && press is None,
        ActionKind::Click => op matches FrameOp::Pointer { selector, press } && selector@ == sel && (press matches Some(
            p,
        ) && p.button == PointerButton::Left && p.click_count == 1 && p.message@ == "Clicked"@),
        ActionKind::DoubleClick => op matches FrameOp::Pointer { selector, press } && selector@ == sel && (
        press matches Some(p) && p.button == PointerButton::Left && p.click_count == 2 && p.message@
            == "Double-clicked"@),
        ActionKind::RightClick => op matches FrameOp::Pointer { selector, press } && selector@ == sel && (
        press matches Some(p) && p.button == PointerButton::Right && p.click_count == 1 && p.message@
            == "Right-clicked"@),
        _ => op matches FrameOp::Script { selector, script } && selector@ == sel && script_is(
            context_script(sel, action, Some(sid)),
            script,
        ),
    }
}

/// Decides how an action on `ref_id` runs inside an entered iframe, the
/// snapshot `snapshot_id` naming the elements: a wait only sleeps (one
/// second by default); every other action first waits until its elements
/// are actionable (a drag's target, then the referenced element, which must
/// be editable for typing); then drags go through the pointer protocol,
/// typing inserts text into the focused element, key presses go to the
/// focused element, mouse actions go through the pointer, and the rest run
/// an in-frame script.
pub fn frame_action_step(ref_id: &str, action: &ActionKind, snapshot_id: &str) -> (r: FrameStep)
    requires
        action_in_range(*action),
    ensures
        match *action {
            ActionKind::Wait { timeout_ms } => r matches FrameStep::Wait { ms, message } && ms == (match timeout_ms {
                Some(t) => t,
                None => 1000,
            }) && message@ == "Waited "@ + decimal(ms as nat) + "ms"@,
            _ => r matches FrameStep::Act { waits, op } && waits_view(waits@) == frame_waits(
                ref_id@,
                *action,
                snapshot_id@,
            ) && frame_op_is(ref_id@, *action, snapshot_id@, op),
        },
{
    if let ActionKind::Wait { timeout_ms } = action {
        let ms: u64 = match timeout_ms {
            Some(t) => *t,
            None => 1000,
        };
        let mut message = String::from_str("Waited ");
        let d = decimal_string(ms);
        message.append(d.as_str());
        message.append("ms");
        return FrameStep::Wait { ms, message };
    }
    let selector = element_selector(ref_id, Some(snapshot_id));
    let mut waits: Vec<ActionableWait> = Vec::new();
    if let ActionKind::Drag { target_ref_id } = action {
        waits.push(ActionableWait { selector: element_selector(target_ref_id.as_str(), Some(snapshot_id)), editable: false });
    }
    let editable = match action {
        ActionKind::Type { .. } => true,
        _ => false,
    };
    waits.push(ActionableWait { selector: selector.clone(), editable });
    proof {
        let w = waits_view(waits@);
        let f = frame_waits(ref_id@, *action, snapshot_id@);
        assert(w =~= f);
    }
    let op = match action {
        ActionKind::Drag { target_ref_id } => FrameOp::Drag {
            source: selector,
            target: element_selector(target_ref_id.as_str(), Some(snapshot_id)),
        },
        ActionKind::Type { text, clear_first } => {
            let n = text.as_str().unicode_len();
            let mut message = String::from_str("Typed ");
            let d = decimal_string(n as u64);
            message.append(d.as_str());
            message.append(" characters");
            let c = match clear_first {
                Some(b) => *b,
                None => false,
            };
            FrameOp::Type { selector, text: text.clone(), clear_first: c, message }
        },
        ActionKind::Press { key } => {
            let mut message = String::from_str("Pressed ");
            message.append(key.as_str());
            FrameOp::Press { selector, key: key.clone(), message }
        },
        ActionKind::Hover => FrameOp::Pointer { selector, press: None },
        ActionKind::Click | ActionKind::DoubleClick | ActionKind::RightClick => {
            let press = pointer_press(action);
            FrameOp::Pointer { selector, press: Some(press) }
        },
        _ => {
            let script = context_action_script(selector.as_str(), action, Some(snapshot_id));
            FrameOp::Script { selector, script }
        },
    };
    FrameStep::Act { waits, op }
}

} // verus!
