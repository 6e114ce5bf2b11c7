//! The script that every page is given, so that it finds the bridge it looks
//! for: a global with one function, which takes a JSON text and posts it to the
//! registered handler.

use vstd::prelude::*;
use vstd::string::*;

use super::{BRIDGE_EXECUTE_ROBLOX, BRIDGE_PROBE, HYBRID_LAUNCH_LOG};

verus! {

broadcast use vstd::string::group_string_axioms;

/// The watch on the game launcher, up to the name of its status channel.
pub const LAUNCH_HEAD: &'static str = r#"
  const __cordialHybridLog = (text) => {
    try {
      const h = window.webkit && window.webkit.messageHandlers && window.webkit.messageHandlers."#;

/// The watch on the game launcher, after that name.
pub const LAUNCH_TAIL: &'static str = r#";
      if (h) h.postMessage(text);
    } catch (_) { /* the fix must never be the reason the page breaks */ }
  };
  let __cordialHybridArmed = false;
  const __cordialTryIntercept = (hybrid) => {
    try {
      if (!hybrid || typeof hybrid !== "object") { return false; }
      const game = hybrid.Game;
      if (!game || typeof game.launchGame !== "function") { return false; }
      if (game.launchGame.__cordialIntercepted) { __cordialHybridArmed = true; return true; }
      const original = game.launchGame;
      // Runs the page's own `launchGame` exactly as before -- its callback,
      // its analytics, its own promise resolution -- and additionally posts
      // the identical JSON payload through `executeRoblox`, the bridge this
      // file already owns end-to-end. This is Cordial implementing the layer
      // the page is already calling, not a patch to the page's own code: the
      // original function is never removed, only wrapped.
      const intercepted = function(payload, callback) {
        try {
          const bridge = window.__globalRobloxAndroidBridge__;
          // **Measured, not assumed:** round 6's own capture logged this
          // argument as a JSON-quoted string, which looked like proof it
          // always arrives pre-stringified -- but that capture went through
          // the diagnostic probe's own `__cordialDescribeArg`, which calls
          // `JSON.stringify` on anything that is not *already* a string, so
          // an object argument and a string argument were indistinguishable
          // in that log. A live call here, checked with a direct `typeof`,
          // arrived as a plain object, not a string. `executeRoblox` needs a
          // string (its own implementation calls `JSON.parse` on it), so
          // both shapes are handled rather than assuming either.
          let json = null;
          if (typeof payload === "string") {
            json = payload;
          } else if (payload && typeof payload === "object") {
            try { json = JSON.stringify(payload); } catch (_) { json = null; }
          }
          if (bridge && typeof bridge.executeRoblox === "function" && json !== null) {
            bridge.executeRoblox(json);
          } else {
            __cordialHybridLog(
              "launchGame called but the bridge was not callable (bridge=" + typeof bridge +
              ", executeRoblox=" + (bridge && typeof bridge.executeRoblox) +
              ", payload=" + typeof payload + ")"
            );
          }
        } catch (e) {
          // Logged, not swallowed silently -- AGENTS.md's rule against a stub
          // that lies applies here exactly: a call that looks like it
          // reached the bridge but actually threw must not read the same as
          // one that succeeded.
          __cordialHybridLog("launchGame's own bridge post threw: " + String(e && e.message));
        }
        return original.apply(this, arguments);
      };
      intercepted.__cordialIntercepted = true;
      game.launchGame = intercepted;
      __cordialHybridArmed = true;
      __cordialHybridLog("intercepted Roblox.Hybrid.Game.launchGame");
      return true;
    } catch (e) {
      __cordialHybridLog("could not intercept Roblox.Hybrid.Game.launchGame: " + String(e && e.message));
      return false;
    }
  };
  // `Hybrid` on the `Roblox` object gets the identical present-or-watch
  // treatment `Roblox` itself gets below, one level in: the website assigns
  // `Roblox` as one object literal with `Hybrid` already inside it in every
  // run measured so far, so the immediate check almost always succeeds --
  // but "almost always" is exactly the case this defends against, not the
  // common one.
  //
  // **Every backing store below is a closure-captured variable, never
  // `this.<something>`.** Measured directly on 2026-09-18: a first version
  // stored the watched value on `this` inside the getter (`this.
  // __cordialRobloxValue`), and `bundleVerifier.js` -- the same script round
  // 5 already found sensitive to exactly this kind of accessor -- calls the
  // installed getter with a receiver that is not `window`, or with none at
  // all, throwing `TypeError: undefined is not an object (evaluating
  // 'this.__cordialRobloxValue')` from inside the getter every time it did.
  // The diagnostic probe's own equivalent code never had this bug because it
  // takes a different shape on write (it replaces the accessor with a plain
  // data property immediately, so there is no getter left for anything to
  // call oddly); this needs the accessor to persist so a *later* read still
  // reports through it, so the fix is to stop depending on `this` at all.
  const __cordialArmHybrid = (roblox) => {
    if (!roblox || typeof roblox !== "object") { return; }
    if (__cordialTryIntercept(roblox.Hybrid)) { return; }
    try {
      const hdesc = Object.getOwnPropertyDescriptor(roblox, "Hybrid");
      if (!hdesc || hdesc.configurable) {
        let hybridValue = hdesc ? hdesc.value : undefined;
        Object.defineProperty(roblox, "Hybrid", {
          configurable: true,
          get() { return hybridValue; },
          set(v) { hybridValue = v; __cordialTryIntercept(v); },
        });
      }
    } catch (e) {
      __cordialHybridLog("could not watch Roblox.Hybrid for later assignment: " + String(e && e.message));
    }
  };
  try {
    const rdesc = Object.getOwnPropertyDescriptor(window, "Roblox");
    if (rdesc && "value" in rdesc && rdesc.value) {
      __cordialArmHybrid(rdesc.value);
    } else if (!rdesc) {
      let robloxValue;
      Object.defineProperty(window, "Roblox", {
        configurable: true,
        get() { return robloxValue; },
        set(v) { robloxValue = v; __cordialArmHybrid(v); },
      });
    } else {
      __cordialHybridLog("window.Roblox already has its own accessor; not watching it");
    }
  } catch (e) {
    __cordialHybridLog("could not watch window.Roblox: " + String(e && e.message));
  }
  setTimeout(() => {
    if (!__cordialHybridArmed) {
      __cordialHybridLog("Roblox.Hybrid.Game.launchGame never appeared within 5s; not installed");
    }
  }, 5000);
"#;

/// The probe, up to the first use of its channel.
pub const PROBE_HEAD: &'static str = r#"
  const __cordialProbePost = (kind, detail) => {
    try {
      const h = window.webkit && window.webkit.messageHandlers && window.webkit.messageHandlers."#;

/// The probe, between the uses of its channel.
pub const PROBE_MIDDLE: &'static str = r#";
      if (h) h.postMessage(JSON.stringify({kind, detail}));
    } catch (_) { /* the probe must never be the thing that breaks the page */ }
  };
  window.addEventListener("error", (e) => {
    __cordialProbePost("window.onerror", {
      message: String(e.message), filename: String(e.filename),
      lineno: e.lineno, colno: e.colno,
      stack: (e.error && e.error.stack) ? String(e.error.stack) : null,
    });
  });
  window.addEventListener("unhandledrejection", (e) => {
    __cordialProbePost("unhandledrejection", {
      reason: (e.reason && e.reason.stack) ? String(e.reason.stack) : String(e.reason),
    });
  });
  // `window.webkit.messageHandlers` is WebKit's own readonly IDL attribute,
  // not a plain data property -- reassigning it while "use strict" is active
  // (the whole shim runs strict, from the IIFE's own top line) throws a
  // TypeError, uncaught, right here, before a single line below this block
  // ever runs. Measured directly on 2026-09-18: with no try/catch, the very
  // first probe message on every popup was a same-origin-scrubbed
  // `{"message":"Script error.","filename":"","lineno":0,"colno":0}` --
  // the signature WebKit gives an exception thrown inside a UserScript's own
  // isolated world -- and the shim's remaining lines, including the bridge
  // install below, never executed at all. A follow-up Join click on that same
  // popup then produced `free(): corrupted unsorted chunks` in Cordial's own
  // log and the client stopped answering its devctl socket. Whether that
  // second failure is this throw or WebKitGTK's own handling of a Proxy over
  // a native host object is not established -- but an uncaught throw here is
  // reason enough on its own to guard it, since it was silently disabling the
  // bridge this switch exists to diagnose. `write` on the descriptor is
  // checked first so the common case (a build where this rejects) never
  // pays for a throw/catch at all.
  if (window.webkit && window.webkit.messageHandlers) {
    const desc = Object.getOwnPropertyDescriptor(window.webkit, "messageHandlers");
    const replaceable = !desc || desc.writable || typeof desc.set === "function";
    if (replaceable) {
      try {
        window.webkit.messageHandlers = new Proxy(window.webkit.messageHandlers, {
          get(target, prop, receiver) {
            const value = Reflect.get(target, prop, receiver);
            if (prop !== ""#;

/// The probe, after the second use of its channel.
pub const PROBE_TAIL: &'static str = r#"") {
              __cordialProbePost("messageHandlers.get", { prop: String(prop), present: value !== undefined });
            }
            return value;
          },
          has(target, prop) {
            __cordialProbePost("messageHandlers.has", { prop: String(prop) });
            return Reflect.has(target, prop);
          },
        });
      } catch (e) {
        __cordialProbePost("messageHandlers.wrap-failed", { message: String(e && e.message) });
      }
    } else {
      __cordialProbePost("messageHandlers.wrap-skipped", { reason: "not configurable/writable on this build" });
    }
  }
  // Widened for issue #40 after `executeRoblox`/`RobloxWKHybrid` and
  // `__globalRobloxAndroidBridge__` all came back silent on a real Join
  // click: the analytics beacon Join fires
  // (`evt=playGameClicked`/`gamePlayIntent`, then
  // `privateServerJoin_Success`) proves the page believes it handed the join
  // off *successfully*, which rules out a dropped call and points at a
  // contract this file had never named at the time. That contract is now
  // known and implemented directly by [`hybrid_launch_enabled`]
  // (`Roblox.Hybrid.Game.launchGame`) -- found by watching `window.Roblox`
  // itself here, one level deep, until the page's own call to it was
  // visible. That `Roblox`/`Hybrid`/`Game`-specific wrapping is gone from
  // this probe now that the contract it found is shipped as the fix: keeping
  // two independent watchers on one page object, with the silent-conflict
  // wart the two used to have (see [`bridge_shim`]'s own doc), would be a
  // trap for the next person to read this file rather than a diagnostic
  // worth keeping. What is still here is the generic candidate-name sweep
  // below, which answers a different, still-open question -- whether the
  // page ever reaches for some *other* native-sounding global this file has
  // not yet named.
  //
  // Every name below is watched two ways: a name currently absent gets a
  // logging accessor installed in its place (a read is reported instead of
  // silently coming back `undefined`, which is the whole point -- a page
  // probing for a name Cordial never registered would otherwise look
  // identical to one not probing at all); a name already present gets
  // wrapped in a `Proxy` the same guarded way `messageHandlers` is above,
  // so reads of *its* properties are visible too.
  {
    const CANDIDATES = [
      "RobloxWKHybrid", "AndroidBridge", "JSBridge", "ReactNativeWebView",
      "AndroidInterface", "NativeInterface", "WebViewJavascriptBridge",
      "Bridge", "external",
    ];
    // **The getter below must carry a setter, and this is not optional.**
    // Measured directly on 2026-09-18: a first version installed a bare
    // `get()` with no `set()` on every currently-absent name, including
    // `window.Roblox` below. `window.Roblox` is not a native candidate at
    // all -- it is the page's *own* namespace object, initialised by its own
    // bootstrap with something in the shape of `Roblox = Roblox || {}`. A
    // getter with no setter makes that assignment a silent no-op in
    // non-strict code (the property has no `[[Set]]`, so nothing is stored,
    // and the getter goes on returning `undefined` forever after). Every
    // later reference the page's own bootstrap makes to `Roblox.<anything>`
    // then throws `TypeError: undefined is not an object`, and the page dies
    // rendering a blank popup -- which round 4 first read as "the site
    // serves a broken bundle under an Android UA" before noticing the same
    // crash also now hit the default Windows identity, which round 3 had
    // exercised repeatedly with no such failure. The break was never the
    // page or the UA; it was this probe's own missing setter, installed one
    // round earlier. Every name below gets a real setter now: it replaces
    // the accessor with a plain, writable, configurable data property
    // holding whatever the page assigned, so a legitimate write behaves
    // exactly as it would with no probe installed at all, and is logged
    // rather than silently allowed to look identical to one that was not.
    for (const name of CANDIDATES) {
      try {
        const desc = Object.getOwnPropertyDescriptor(window, name);
        if (!desc) {
          Object.defineProperty(window, name, {
            configurable: true,
            get() {
              __cordialProbePost("global.read", { name, present: false });
              return undefined;
            },
            set(v) {
              __cordialProbePost("global.write", { name, type: typeof v });
              Object.defineProperty(window, name, {
                value: v, writable: true, configurable: true, enumerable: true,
              });
            },
          });
        } else {
          __cordialProbePost("global.present", { name, type: typeof desc.value });
        }
      } catch (e) {
        __cordialProbePost("global.probe-failed", { name, message: String(e && e.message) });
      }
    }
    // Free, per the switch's own doc: settles whether a user-agent gate
    // could be why Join never reaches for any of the above, without needing
    // to catch a read of it in the act.
    __cordialProbePost("navigator.userAgent", { value: String(navigator.userAgent) });
  }
"#;

/// A bridge whose properties are watched, up to the name of its function.
pub const WATCHED_HEAD: &'static str = r#"const bridgeImpl = {};
  Object.defineProperty(bridgeImpl, ""#;

/// A bridge whose properties are watched, after that name.
pub const WATCHED_TAIL: &'static str = r#"", {
    value: (query) => handler.postMessage(JSON.parse(query)),
    enumerable: true, writable: false, configurable: false
  });
  const bridge = new Proxy(bridgeImpl, {
    get(target, prop, receiver) {
      const value = Reflect.get(target, prop, receiver);
      __cordialProbePost("globalRobloxAndroidBridge.get", { prop: String(prop), present: value !== undefined });
      return value;
    },
    has(target, prop) {
      __cordialProbePost("globalRobloxAndroidBridge.has", { prop: String(prop) });
      return Reflect.has(target, prop);
    },
  });"#;

/// A bridge, up to the name of its function.
pub const PLAIN_HEAD: &'static str = r#"const bridge = {};
  Object.defineProperty(bridge, ""#;

/// A bridge, after that name.
pub const PLAIN_TAIL: &'static str = r#"", {
    value: (query) => handler.postMessage(JSON.parse(query)),
    enumerable: true, writable: false, configurable: false
  });"#;

/// The script, up to the watch on the game launcher.
pub const OPENING: &'static str = r#"(() => {
  "use strict";
"#;

/// Where the handler is looked up, up to its name.
pub const HANDLER_HEAD: &'static str = r#"
  const handlers = window.webkit && window.webkit.messageHandlers;
  const handler = handlers && handlers."#;

/// After the name of the handler, up to the bridge.
pub const HANDLER_TAIL: &'static str = r#";
  if (!handler) { return; }
  "#;

/// The bridge is installed where a page cannot replace it.
pub const CLOSING: &'static str = r#"
  try {
    Object.defineProperty(window, "__globalRobloxAndroidBridge__", {
      value: bridge, enumerable: true, writable: false, configurable: false
    });
  } catch (_) { /* a page may not replace the native bridge */ }
})();"#;

/// What watches for the page's game launcher, and posts what it is called with.
pub open spec fn launch_watch() -> Seq<char> {
    LAUNCH_HEAD@ + HYBRID_LAUNCH_LOG@ + LAUNCH_TAIL@
}

/// What reports the page's own reads and errors.
pub open spec fn probe() -> Seq<char> {
    PROBE_HEAD@ + BRIDGE_PROBE@ + PROBE_MIDDLE@ + BRIDGE_PROBE@ + PROBE_TAIL@
}

/// The bridge, whose one function is named after the handler it posts to.
pub open spec fn bridge(watched: bool) -> Seq<char> {
    if watched {
        WATCHED_HEAD@ + BRIDGE_EXECUTE_ROBLOX@ + WATCHED_TAIL@
    } else {
        PLAIN_HEAD@ + BRIDGE_EXECUTE_ROBLOX@ + PLAIN_TAIL@
    }
}

/// The whole script. The watch and the probe come before the handler is looked
/// up, since the probe wraps what it is looked up in.
pub open spec fn script(watch_launches: bool, watch_bridge: bool) -> Seq<char> {
    OPENING@ + (if watch_launches {
        launch_watch()
    } else {
        Seq::empty()
    }) + "\n"@ + (if watch_bridge {
        probe()
    } else {
        Seq::empty()
    }) + HANDLER_HEAD@ + BRIDGE_EXECUTE_ROBLOX@ + HANDLER_TAIL@ + bridge(watch_bridge) + CLOSING@
}

/// The script that every page is given. `watch_launches` adds the watch on the
/// page's game launcher, and `watch_bridge` the reports of what the page reads.
pub fn bridge_shim(watch_launches: bool, watch_bridge: bool) -> (shim: String)
    ensures
        shim@ == script(watch_launches, watch_bridge),
{
    let mut shim = OPENING.to_owned();
    if watch_launches {
        shim.append(LAUNCH_HEAD);
        shim.append(HYBRID_LAUNCH_LOG);
        shim.append(LAUNCH_TAIL);
    }
    assert(shim@ =~= OPENING@ + (if watch_launches {
        launch_watch()
    } else {
        Seq::empty()
    }));
    shim.append("\n");
    let ghost opened = shim@;
    if watch_bridge {
        shim.append(PROBE_HEAD);
        shim.append(BRIDGE_PROBE);
        shim.append(PROBE_MIDDLE);
        shim.append(BRIDGE_PROBE);
        shim.append(PROBE_TAIL);
    }
    assert(shim@ =~= opened + (if watch_bridge {
        probe()
    } else {
        Seq::empty()
    }));
    shim.append(HANDLER_HEAD);
    shim.append(BRIDGE_EXECUTE_ROBLOX);
    shim.append(HANDLER_TAIL);
    let ghost looked_up = shim@;
    if watch_bridge {
        shim.append(WATCHED_HEAD);
        shim.append(BRIDGE_EXECUTE_ROBLOX);
        shim.append(WATCHED_TAIL);
    } else {
        shim.append(PLAIN_HEAD);
        shim.append(BRIDGE_EXECUTE_ROBLOX);
        shim.append(PLAIN_TAIL);
    }
    assert(shim@ =~= looked_up + bridge(watch_bridge));
    shim.append(CLOSING);
    shim
}

} // verus!
