//! The fixed text of a rendered page: the page shell, its stylesheet and
//! scripts, and the pieces of markup that surround variable values.
use vstd::prelude::*;

verus! {

/// The page shell into which every rendered document is placed.
pub const PAGE_TEMPLATE: &'static str = r#"<!DOCTYPE html>
<html lang="en">
<head>
<meta charset="utf-8">
<meta name="viewport" content="width=device-width, initial-scale=1">
<title>Mark HTML Template</title>
<style>
:root{--background:#f5f5f4;--foreground:#1c1917;--card:#ffffff;--muted:#f0efed;--muted-foreground:#78716c;--border:#e7e5e4;--ring:#a8a29e}
.dark{--background:#0c0a09;--foreground:#f5f5f4;--card:#1c1917;--muted:#292524;--muted-foreground:#a8a29e;--border:#44403c;--ring:#57534e}
*{box-sizing:border-box}
html,body{margin:0;padding:0}
body{background:var(--background);color:var(--foreground);font-family:ui-sans-serif,system-ui,-apple-system,"Segoe UI",Roboto,"Helvetica Neue",Arial,sans-serif;line-height:1.6}
a{color:inherit}
button{font:inherit;border:none;background:none;color:inherit}
.editor-shell{position:relative;min-height:100vh}
.fixed{position:fixed}.absolute{position:absolute}.relative{position:relative}
.left-4{left:1rem}.right-4{right:1rem}.top-4{top:1rem}.z-40{z-index:40}.z-30{z-index:30}
.inset-y-0{top:0;bottom:0}.left-0{left:0}
.flex{display:flex}.inline-flex{display:inline-flex}.items-center{align-items:center}.justify-center{justify-content:center}
.min-h-screen{min-height:100vh}.w-full{width:100%}.h-full{height:100%}.h-8{height:2rem}.w-8{width:2rem}
.rounded-full{border-radius:9999px}.rounded-md{border-radius:.375rem}.border{border:1px solid var(--border)}.border-r{border-right:1px solid var(--border)}
.w-\[22rem\]{width:22rem}.overflow-hidden{overflow:hidden}.overflow-y-auto{overflow-y:auto}
.transition-transform{transition:transform .2s ease}.-translate-x-full{transform:translateX(-100%)}
.px-3{padding-left:.75rem;padding-right:.75rem}.py-2{padding-top:.5rem;padding-bottom:.5rem}.px-4{padding-left:1rem;padding-right:1rem}.py-24{padding-top:6rem;padding-bottom:6rem}.p-4{padding:1rem}.pt-20{padding-top:5rem}
.text-sm{font-size:.875rem}.text-xs{font-size:.75rem}.font-medium{font-weight:500}.uppercase{text-transform:uppercase}
.ml-4{margin-left:1rem}.pl-3{padding-left:.75rem}.border-l{border-left:1px solid var(--border)}.mt-4{margin-top:1rem}.mb-6{margin-bottom:1.5rem}
.space-y-2>*+*{margin-top:.5rem}.gap-2{gap:.5rem}.flex-wrap{flex-wrap:wrap}.flex-col{flex-direction:column}.flex-1{flex:1 1 0%}
.max-w-\[calc\(8\.5in\+4rem\)\]{max-width:calc(8.5in + 4rem)}
.paper-sheet{margin:0 auto;max-width:8.5in;background:var(--card);border:1px solid var(--border);border-radius:12px;padding:3rem 3.5rem;box-shadow:0 10px 30px #0000000f}
.markdown-prose h1,.markdown-prose h2,.markdown-prose h3{line-height:1.25}
.markdown-prose pre{overflow-x:auto;padding:1rem;border:1px solid var(--border);border-radius:.5rem;background:var(--muted)}
.markdown-prose code{font-family:ui-monospace,SFMono-Regular,Menlo,Consolas,monospace;font-size:.9em}
.markdown-prose table{border-collapse:collapse}
.markdown-prose th,.markdown-prose td{border:1px solid var(--border);padding:.4rem .7rem}
.markdown-prose blockquote{margin:0;padding-left:1rem;border-left:3px solid var(--border);color:var(--muted-foreground)}
.markdown-prose img{max-width:100%}
@media print{.fixed,aside{display:none!important}.paper-sheet{border:none;box-shadow:none;color:#000}}
</style>
</head>
<body>
<div class="editor-shell">
<div class="fixed left-4 top-4 z-40 md:left-6 md:top-6"><button type="button" aria-label="Files">Files</button></div>
<div class="fixed right-4 top-4 z-40 md:right-6 md:top-6"><button type="button" aria-label="Theme">Theme</button></div>
<aside class="editor-scrollbar fixed inset-y-0 left-0 w-[22rem] overflow-y-auto border-r p-4 pt-20"><p>Placeholder file tree</p></aside>
<main class="relative flex min-h-screen items-center justify-center px-4 py-24 md:px-6">
<div class="w-full max-w-[calc(8.5in+4rem)]">
<article class="paper-sheet">
<div class="markdown-prose"><p>&lt;put rendered html here&gt;</p></div>
</article>
</div>
</main>
</div>
</body>
</html>
"#;

/// Page stylesheet, part 0.
pub const CSS_0: &'static str = r#"<style>
:root{--mark-font-size:"#;

/// Page stylesheet, part 1.
pub const CSS_1: &'static str = r#"px;--mark-letter-width:"#;

/// Page stylesheet, part 2.
pub const CSS_2: &'static str = r#"in;--mark-letter-radius:"#;

/// Page stylesheet, part 3.
pub const CSS_3: &'static str = r#"px;--mark-sidebar-button-radius:"#;

/// Page stylesheet, part 4.
pub const CSS_4: &'static str = r#"px;--mark-theme-button-radius:"#;

/// Page stylesheet, part 5.
pub const CSS_5: &'static str = r#"px;--mark-sidebar-footer-height:4.85rem}
.mark-sidebar-toggle{display:none}
.mark-breadcrumb{border-bottom:1px solid var(--border);padding-bottom:1rem}
.mark-breadcrumb a{text-decoration:none}
.mark-page-width-shell{max-width:calc(var(--mark-letter-width) + 4rem)!important}
.paper-sheet{max-width:var(--mark-letter-width)!important;border-radius:var(--mark-letter-radius)!important;font-size:var(--mark-font-size)}
#mark-sidebar-control-shell,#mark-sidebar-button{border-radius:var(--mark-sidebar-button-radius)!important}
.mark-theme-button-shell,#mark-theme-toggle{border-radius:var(--mark-theme-button-radius)!important}
.mark-theme-menu{position:absolute;right:0;top:calc(100% + .75rem);display:grid;gap:1rem;min-width:min(26rem,calc(100vw - 2rem));padding:1rem;border:1px solid var(--border);border-radius:1rem;background:color-mix(in srgb,var(--card) 96%,transparent);box-shadow:0 12px 30px #0000001a;backdrop-filter:blur(18px)}
.mark-theme-menu[hidden]{display:none}
.mark-theme-menu-section{display:grid;gap:.65rem}
.mark-theme-menu-heading{font-size:.72rem;font-weight:700;letter-spacing:.08em;text-transform:uppercase;color:var(--muted-foreground)}
.mark-theme-option-list{display:grid;gap:.25rem}
.mark-theme-option{display:flex;align-items:center;gap:.65rem;width:100%;padding:.55rem .7rem;border-radius:.75rem;background:transparent;color:var(--foreground);cursor:pointer;text-align:left}
.mark-theme-option:hover,.mark-theme-option[aria-pressed="true"]{background:var(--muted)}
.mark-theme-option-icon,.mark-theme-option-label{pointer-events:none}
.mark-theme-option-icon{display:inline-flex;align-items:center;justify-content:center;color:var(--muted-foreground)}
.mark-layout-form{display:grid;gap:.75rem;padding-top:.2rem}
.mark-layout-help{margin:0;color:var(--muted-foreground);font-size:.85rem;line-height:1.45}
.mark-layout-help code{font-size:.82em}
.mark-layout-field{display:grid;gap:.35rem}
.mark-layout-field span{font-size:.82rem;color:var(--foreground)}
.mark-layout-field input{width:100%;border:1px solid var(--border);border-radius:.7rem;background:var(--background);color:var(--foreground);padding:.6rem .75rem;font:inherit}
.mark-layout-field input:focus{outline:2px solid var(--ring);outline-offset:2px}
.mark-layout-command-wrap{display:grid;gap:.5rem;border:1px solid var(--border);border-radius:.85rem;background:var(--muted);padding:.75rem}
.mark-layout-command-header{display:flex;align-items:center;justify-content:space-between;gap:1rem;font-size:.8rem;font-weight:600;color:var(--foreground)}
.mark-layout-copy{border:1px solid var(--border);border-radius:.65rem;background:var(--background);color:var(--foreground);padding:.35rem .65rem;font:inherit;cursor:pointer}
.mark-layout-copy:hover{background:var(--card)}
.mark-layout-command{display:block;white-space:pre-wrap;word-break:break-word;font-size:.78rem;line-height:1.5}
.mark-sidebar-link,.mark-sidebar-current,.mark-sidebar-summary{display:flex;min-height:2.5rem;align-items:center}
.mark-sidebar-group>summary::-webkit-details-marker{display:none}
.mark-sidebar-group>summary::before{content:"▾";display:inline-block;margin-right:.5rem;color:var(--muted-foreground);transition:transform .15s ease}
.mark-sidebar-group:not([open])>summary::before{transform:rotate(-90deg)}
.mark-sidebar-summary{cursor:pointer;list-style:none}
.mark-sidebar-current{background:var(--muted)}
.mark-sidebar-scroll{padding-bottom:calc(var(--mark-sidebar-footer-height) + 1rem)}
.mark-sidebar-footer{position:absolute;left:0;right:0;bottom:0;z-index:10;border-top:1px solid var(--border);background:color-mix(in srgb,var(--card) 97%,transparent);padding:1rem 1.5rem 1.15rem;backdrop-filter:blur(14px);box-shadow:0 -10px 24px #00000014;line-height:1.45}
.mark-sidebar-footer span{font-weight:600;color:var(--foreground)}
.mark-code-block{position:relative;margin:1em 0}
.mark-code-toolbar{display:flex;justify-content:flex-end;gap:.4em;padding:.45rem .6rem;background:var(--muted);border:1px solid var(--border);border-bottom:none;border-radius:.5rem .5rem 0 0}
.mark-code-block pre{margin-top:0;border-top-left-radius:0;border-top-right-radius:0}
.mark-btn{font-size:.78em;padding:.2em .6em;border:1px solid var(--border);border-radius:.4rem;background:var(--background);color:var(--foreground);cursor:pointer;transition:background .15s}
.mark-btn:hover{background:var(--card)}
.mark-btn.mark-copied{color:#2a7a2a;border-color:#2a7a2a}
.mark-btn.mark-failed{color:#b00;border-color:#b00}
</style>"#;

/// Sets the dark class before first paint.
pub const EARLY_THEME_SCRIPT: &'static str = r#"<script>(function(){var root=document.documentElement;var theme=root.getAttribute('data-theme')||'system';var dark=theme==='dark'||(theme==='system'&&window.matchMedia&&window.matchMedia('(prefers-color-scheme: dark)').matches);root.classList.toggle('dark',dark);})();</script>"#;

/// Client-side behaviour: copy buttons, theme menu, sidebar toggle, hotkeys.
pub const ENHANCEMENT_JS: &'static str = r#"<script>(function() {
  var THEMES = ['system', 'light', 'dark'];

  function flash(btn, msg, cls) {
    var original = btn.innerHTML;
    btn.textContent = msg;
    btn.classList.add(cls);
    setTimeout(function() {
      btn.innerHTML = original;
      btn.classList.remove(cls);
    }, 1800);
  }

  function copyText(text, btn, successMsg) {
    if (navigator.clipboard && navigator.clipboard.writeText) {
      navigator.clipboard.writeText(text).then(function() {
        flash(btn, successMsg, 'mark-copied');
      }).catch(function() {
        flash(btn, '\u2717 Failed', 'mark-failed');
      });
      return;
    }

    try {
      var ta = document.createElement('textarea');
      ta.value = text;
      ta.style.position = 'fixed';
      ta.style.opacity = '0';
      document.body.appendChild(ta);
      ta.focus();
      ta.select();
      var ok = false;
      try {
        ok = document.execCommand('copy');
      } finally {
        document.body.removeChild(ta);
      }
      flash(btn, ok ? successMsg : '\u2717 Failed', ok ? 'mark-copied' : 'mark-failed');
    } catch (error) {
      flash(btn, '\u2717 Failed', 'mark-failed');
    }
  }

  function prefersDark() {
    return !!(window.matchMedia && window.matchMedia('(prefers-color-scheme: dark)').matches);
  }

  function closeThemeMenu() {
    var menu = document.getElementById('mark-theme-menu');
    var toggle = document.getElementById('mark-theme-toggle');
    if (menu) {
      menu.hidden = true;
    }
    if (toggle) {
      toggle.setAttribute('aria-expanded', 'false');
    }
  }

  function updateThemeButtons(theme) {
    document.querySelectorAll('[data-theme-option]').forEach(function(button) {
      var active = button.dataset.themeOption === theme;
      button.setAttribute('aria-pressed', active ? 'true' : 'false');
    });

    var toggle = document.getElementById('mark-theme-toggle');
    if (toggle) {
      toggle.setAttribute('aria-label', 'Theme: ' + theme + '. Change theme or layout');
      toggle.setAttribute('title', 'Theme: ' + theme + '. Change theme or layout');
    }
  }

  function setTheme(theme) {
    var root = document.documentElement;
    root.setAttribute('data-theme', theme);
    root.classList.toggle('dark', theme === 'dark' || (theme === 'system' && prefersDark()));
    updateThemeButtons(theme);
  }

  function cycleTheme() {
    var currentTheme = document.documentElement.getAttribute('data-theme') || 'system';
    var currentIndex = THEMES.indexOf(currentTheme);
    var nextTheme = THEMES[(currentIndex + 1 + THEMES.length) % THEMES.length];
    setTheme(nextTheme);
    closeThemeMenu();
  }

  function updateSidebarState() {
    var sidebar = document.getElementById('mark-sidebar');
    var toggle = document.getElementById('mark-sidebar-button');
    var checkbox = document.getElementById('mark-sidebar-toggle');
    if (!sidebar || !toggle) {
      return;
    }
    var visible = !sidebar.classList.contains('-translate-x-full');
    toggle.setAttribute('aria-expanded', visible ? 'true' : 'false');
    checkbox && (checkbox.checked = visible);
  }

  function toggleSidebar() {
    var sidebar = document.getElementById('mark-sidebar');
    if (!sidebar) {
      return;
    }
    sidebar.classList.toggle('-translate-x-full');
    updateSidebarState();
  }

  function isEditableTarget(target) {
    if (!target) {
      return false;
    }
    if (target.closest('textarea, select')) {
      return true;
    }
    if (target.closest('[contenteditable]:not([contenteditable="false"])')) {
      return true;
    }
    var input = target.closest('input');
    if (!input) {
      return false;
    }
    var type = (input.getAttribute('type') || 'text').toLowerCase();
    return !['checkbox', 'radio', 'button', 'submit', 'reset', 'range', 'color', 'file'].includes(type);
  }

  function commandValue(input, fallback) {
    if (!input) {
      return fallback;
    }
    var numeric = Number(input.value);
    if (!Number.isFinite(numeric)) {
      return fallback;
    }
    return String(numeric);
  }

  function updateLayoutCommand() {
    var command = document.getElementById('mark-layout-command');
    if (!command) {
      return;
    }

    var fontSize = commandValue(document.getElementById('mark-font-size-input'), '16');
    var letterWidth = commandValue(document.getElementById('mark-letter-width-input'), '8.5');
    var letterRadius = commandValue(document.getElementById('mark-letter-radius-input'), '12');
    var sidebarRadius = commandValue(document.getElementById('mark-sidebar-button-radius-input'), '999');
    var themeRadius = commandValue(document.getElementById('mark-theme-button-radius-input'), '999');

    command.textContent = 'mark config set-layout --font-size ' + fontSize + ' --letter-width ' + letterWidth + ' --letter-radius ' + letterRadius + ' --sidebar-button-radius ' + sidebarRadius + ' --theme-button-radius ' + themeRadius;
  }

  document.addEventListener('DOMContentLoaded', function() {
    document.querySelectorAll('.mark-code-block').forEach(function(block) {
      var pre = block.querySelector('pre');
      var code = pre ? pre.querySelector('code') : null;

      var copyBtn = block.querySelector('.mark-copy-btn');
      if (copyBtn && code) {
        copyBtn.addEventListener('click', function() {
          copyText(code.textContent, copyBtn, '\u2713 Copied');
        });
      }

      var cleanBtn = block.querySelector('.mark-copy-clean-btn');
      if (cleanBtn) {
        var cleanCode = block.dataset.cleanCode;
        if (cleanCode !== undefined) {
          cleanBtn.addEventListener('click', function() {
            copyText(cleanCode, cleanBtn, '\u2713 Copied clean');
          });
        }
      }
    });

    setTheme(document.documentElement.getAttribute('data-theme') || 'system');

    var sidebarToggle = document.getElementById('mark-sidebar-button');
    if (sidebarToggle) {
      sidebarToggle.addEventListener('click', function() {
        toggleSidebar();
      });
      updateSidebarState();
    }

    var themeToggle = document.getElementById('mark-theme-toggle');
    var themeMenu = document.getElementById('mark-theme-menu');
    if (themeToggle && themeMenu) {
      themeToggle.addEventListener('click', function(event) {
        event.preventDefault();
        var expanded = themeToggle.getAttribute('aria-expanded') === 'true';
        themeToggle.setAttribute('aria-expanded', expanded ? 'false' : 'true');
        themeMenu.hidden = expanded;
      });

      document.querySelectorAll('[data-theme-option]').forEach(function(button) {
        button.addEventListener('click', function() {
          setTheme(button.dataset.themeOption);
          closeThemeMenu();
        });
      });

      document.addEventListener('click', function(event) {
        if (themeMenu.hidden) {
          return;
        }
        if (themeMenu.contains(event.target) || themeToggle.contains(event.target)) {
          return;
        }
        closeThemeMenu();
      });
    }

    var layoutForm = document.getElementById('mark-layout-form');
    if (layoutForm) {
      layoutForm.querySelectorAll('input').forEach(function(input) {
        input.addEventListener('input', updateLayoutCommand);
        input.addEventListener('change', updateLayoutCommand);
      });
      updateLayoutCommand();
    }

    var copyLayoutCommand = document.getElementById('mark-copy-layout-command');
    if (copyLayoutCommand) {
      copyLayoutCommand.addEventListener('click', function() {
        var command = document.getElementById('mark-layout-command');
        if (command) {
          copyText(command.textContent, copyLayoutCommand, '\u2713 Copied command');
        }
      });
    }

    var media = window.matchMedia ? window.matchMedia('(prefers-color-scheme: dark)') : null;
    if (media) {
      var syncSystemTheme = function() {
        if ((document.documentElement.getAttribute('data-theme') || 'system') === 'system') {
          setTheme('system');
        }
      };
      if (media.addEventListener) {
        media.addEventListener('change', syncSystemTheme);
      } else if (media.addListener) {
        media.addListener(syncSystemTheme);
      }
    }

    document.addEventListener('keydown', function(event) {
      if (event.defaultPrevented || event.altKey || event.ctrlKey || event.metaKey || isEditableTarget(event.target)) {
        return;
      }

      var key = (event.key || '').toLowerCase();
      if (key === 'e') {
        if (document.getElementById('mark-sidebar-button')) {
          toggleSidebar();
          event.preventDefault();
        }
        return;
      }

      if (key === 't') {
        cycleTheme();
        event.preventDefault();
        return;
      }

      if (key === 'escape') {
        closeThemeMenu();
      }
    });
  });
})();</script>"#;

/// Theme and layout controls, part 0.
pub const THEME_CTL_0: &'static str = r#"<div class="fixed right-4 top-4 z-40 md:right-6 md:top-6"><div class="mark-theme-control relative rounded-full border border-[var(--border)] bg-[color-mix(in_srgb,var(--card)_88%,transparent)] p-1.5 shadow-sm backdrop-blur mark-theme-button-shell"><button class="inline-flex items-center justify-center gap-2 whitespace-nowrap text-sm font-medium transition-colors disabled:pointer-events-none disabled:opacity-50 focus-visible:outline-none focus-visible:ring-2 focus-visible:ring-[var(--ring)] focus-visible:ring-offset-2 focus-visible:ring-offset-[var(--background)] text-[var(--muted-foreground)] hover:bg-[var(--muted)] hover:text-[var(--foreground)] h-8 w-8 rounded-full p-0" type="button" id="mark-theme-toggle" aria-label="Theme: "#;

/// Theme and layout controls, part 1.
pub const THEME_CTL_1: &'static str = r#". Change theme or layout" title="Theme: "#;

/// Theme and layout controls, part 2.
pub const THEME_CTL_2: &'static str = r#". Change theme or layout" aria-haspopup="dialog" aria-expanded="false"><svg xmlns="http://www.w3.org/2000/svg" width="24" height="24" viewBox="0 0 24 24" fill="none" stroke="currentColor" stroke-width="2" stroke-linecap="round" stroke-linejoin="round" class="lucide lucide-sun-moon h-3.5 w-3.5" aria-hidden="true"><path d="M12 2v2"></path><path d="M14.837 16.385a6 6 0 1 1-7.223-7.222c.624-.147.97.66.715 1.248a4 4 0 0 0 5.26 5.259c.589-.255 1.396.09 1.248.715"></path><path d="M16 12a4 4 0 0 0-4-4"></path><path d="m19 5-1.256 1.256"></path><path d="M20 12h2"></path></svg></button><div id="mark-theme-menu" class="mark-theme-menu" aria-label="Theme and reader layout controls" hidden><section class="mark-theme-menu-section"><div class="mark-theme-menu-heading">Theme</div><div class="mark-theme-option-list">"#;

/// Theme and layout controls, part 3.
pub const THEME_CTL_3: &'static str = r#"</div></section><form id="mark-layout-form" class="mark-layout-form" autocomplete="off"><div class="mark-theme-menu-heading">Reader layout</div><p class="mark-layout-help">Adjust the values below, then run the generated command in your terminal to persist them to <code>~/.mark/config.toml</code>.</p><label class="mark-layout-field"><span>Font size (px)</span><input id="mark-font-size-input" type="number" min="10" max="32" step="1" value=""#;

/// Theme and layout controls, part 4.
pub const THEME_CTL_4: &'static str = r#""></label><label class="mark-layout-field"><span>Letter width (in)</span><input id="mark-letter-width-input" type="number" min="5" max="12" step="0.05" value=""#;

/// Theme and layout controls, part 5.
pub const THEME_CTL_5: &'static str = r#""></label><label class="mark-layout-field"><span>Letter corner radius (px)</span><input id="mark-letter-radius-input" type="number" min="0" max="64" step="1" value=""#;

/// Theme and layout controls, part 6.
pub const THEME_CTL_6: &'static str = r#""></label><label class="mark-layout-field"><span>Sidebar button radius (px)</span><input id="mark-sidebar-button-radius-input" type="number" min="0" max="999" step="1" value=""#;

/// Theme and layout controls, part 7.
pub const THEME_CTL_7: &'static str = r#""></label><label class="mark-layout-field"><span>Theme button radius (px)</span><input id="mark-theme-button-radius-input" type="number" min="0" max="999" step="1" value=""#;

/// Theme and layout controls, part 8.
pub const THEME_CTL_8: &'static str = r#""></label><div class="mark-layout-command-wrap"><div class="mark-layout-command-header"><span>Terminal command</span><button type="button" id="mark-copy-layout-command" class="mark-layout-copy">Copy</button></div><code id="mark-layout-command" class="mark-layout-command">"#;

/// Theme and layout controls, part 9.
pub const THEME_CTL_9: &'static str = r#"</code></div></form></div></div></div>"#;

/// Sidebar toggle controls, part 0.
pub const SIDEBAR_CTL_0: &'static str = r#"<input type="checkbox" id="mark-sidebar-toggle" class="mark-sidebar-toggle""#;

/// Sidebar toggle controls, part 1.
pub const SIDEBAR_CTL_1: &'static str = r#">
<div class="absolute left-4 top-4 z-40 md:left-6 md:top-6"><div id="mark-sidebar-control-shell" class="mark-sidebar-button-shell rounded-full border border-[var(--border)] bg-[color-mix(in_srgb,var(--card)_88%,transparent)] p-1.5 shadow-sm backdrop-blur"><button class="inline-flex items-center justify-center gap-2 whitespace-nowrap text-sm font-medium transition-colors disabled:pointer-events-none disabled:opacity-50 focus-visible:outline-none focus-visible:ring-2 focus-visible:ring-[var(--ring)] focus-visible:ring-offset-2 focus-visible:ring-offset-[var(--background)] text-[var(--muted-foreground)] hover:bg-[var(--muted)] hover:text-[var(--foreground)] h-8 w-8 rounded-full p-0" type="button" id="mark-sidebar-button" aria-controls="mark-sidebar" aria-expanded=""#;

/// Sidebar toggle controls, part 2.
pub const SIDEBAR_CTL_2: &'static str = r#"" aria-label="Toggle sidebar (e)" title="Toggle sidebar (e)"><svg xmlns="http://www.w3.org/2000/svg" width="24" height="24" viewBox="0 0 24 24" fill="none" stroke="currentColor" stroke-width="2" stroke-linecap="round" stroke-linejoin="round" class="lucide lucide-panel-left h-3.5 w-3.5" aria-hidden="true"><rect width="18" height="18" x="3" y="3" rx="2"></rect><path d="M9 3v18"></path></svg></button></div></div>"#;

/// Sidebar shell, part 0.
pub const SIDEBAR_SHELL_0: &'static str = r#"<aside id="mark-sidebar" class="mark-sidebar fixed inset-y-0 left-0 z-30 w-[22rem] overflow-hidden border-r border-[var(--border)] bg-[var(--card)] p-4 pt-20 shadow-lg transition-transform duration-200 md:p-6 md:pt-24"#;

/// Sidebar shell, part 1.
pub const SIDEBAR_SHELL_1: &'static str = r#""><div class="relative flex h-full min-h-0 flex-col"><section class="mark-sidebar-scroll editor-scrollbar flex-1 overflow-y-auto"><h2 class="text-xs font-medium uppercase tracking-wide text-[var(--muted-foreground)]">Hierarchy</h2><nav aria-label="Rendered file tree" class="mt-4 text-sm">"#;

/// Sidebar shell, part 2.
pub const SIDEBAR_SHELL_2: &'static str = r#"</nav></section><footer class="mark-sidebar-footer text-xs text-[var(--muted-foreground)]">Hotkeys: <span>E</span> toggles the sidebar,<br><span>T</span> toggles the theme.</footer></div></aside>"#;

/// One theme option button, part 0.
pub const THEME_OPT_0: &'static str = r#"<button type="button" class="mark-theme-option" data-theme-option=""#;

/// One theme option button, part 1.
pub const THEME_OPT_1: &'static str = r#""><span class="mark-theme-option-icon" aria-hidden="true">"#;

/// One theme option button, part 2.
pub const THEME_OPT_2: &'static str = r#"</span><span class="mark-theme-option-label">"#;

/// One theme option button, part 3.
pub const THEME_OPT_3: &'static str = r#"</span></button>"#;

/// Icon of the system theme option.
pub const ICON_SYSTEM: &'static str = r#"<svg xmlns="http://www.w3.org/2000/svg" width="24" height="24" viewBox="0 0 24 24" fill="none" stroke="currentColor" stroke-width="2" stroke-linecap="round" stroke-linejoin="round" class="lucide lucide-monitor h-3.5 w-3.5"><rect width="20" height="14" x="2" y="3" rx="2"></rect><line x1="8" x2="16" y1="21" y2="21"></line><line x1="12" x2="12" y1="17" y2="21"></line></svg>"#;

/// Icon of the light theme option.
pub const ICON_LIGHT: &'static str = r#"<svg xmlns="http://www.w3.org/2000/svg" width="24" height="24" viewBox="0 0 24 24" fill="none" stroke="currentColor" stroke-width="2" stroke-linecap="round" stroke-linejoin="round" class="lucide lucide-sun h-3.5 w-3.5"><circle cx="12" cy="12" r="4"></circle><path d="M12 2v2"></path><path d="M12 20v2"></path><path d="m4.93 4.93 1.41 1.41"></path><path d="m17.66 17.66 1.41 1.41"></path><path d="M2 12h2"></path><path d="M20 12h2"></path><path d="m6.34 17.66-1.41 1.41"></path><path d="m19.07 4.93-1.41 1.41"></path></svg>"#;

/// Icon of the dark theme option.
pub const ICON_DARK: &'static str = r#"<svg xmlns="http://www.w3.org/2000/svg" width="24" height="24" viewBox="0 0 24 24" fill="none" stroke="currentColor" stroke-width="2" stroke-linecap="round" stroke-linejoin="round" class="lucide lucide-moon h-3.5 w-3.5"><path d="M12 3a6 6 0 0 0 9 9 9 9 0 1 1-9-9"></path></svg>"#;

} // verus!
