//! The single self-contained dashboard page (markup, styles and WebSocket
//! client) served at `/`. Its `refreshMs` must stay below
//! [`COMMAND_TIMEOUT_MS`](crate::protocol::COMMAND_TIMEOUT_MS).
use vstd::prelude::*;

verus! {

/// The inline dashboard served at `/`.
pub const INDEX_HTML: &'static str = r#"<!doctype html>
<html lang="en">
<head>
<meta charset="utf-8">
<meta name="viewport" content="width=device-width,initial-scale=1,viewport-fit=cover">
<title>ezal</title>
<link rel="icon" href="data:image/svg+xml,%3Csvg xmlns='http://www.w3.org/2000/svg' viewBox='0 0 64 64'%3E%3Crect width='64' height='64' rx='14' fill='%23172023'/%3E%3Cpath d='M14 38a24 24 0 0 0 34-24A32 32 0 0 0 14 38Z' fill='%23f4f7f8'/%3E%3Cpath d='M18 37a20 20 0 0 0 28-20' fill='none' stroke='%23147a73' stroke-width='4' stroke-linecap='round'/%3E%3Cpath d='M30 42 22 54h20l-8-12' fill='none' stroke='%23f4f7f8' stroke-width='5' stroke-linecap='round' stroke-linejoin='round'/%3E%3Ccircle cx='47' cy='15' r='4' fill='%23df5d43'/%3E%3C/svg%3E">
<style>
:root {
  color-scheme: light;
  --bg: #f4f7f8;
  --ink: #172023;
  --muted: #68777c;
  --panel: #ffffff;
  --line: #d9e1e4;
  --teal: #147a73;
  --teal-dark: #0f5f59;
  --coral: #df5d43;
  --gold: #b88918;
  --shadow: 0 18px 48px rgba(23, 32, 35, 0.14);
}
* { box-sizing: border-box; }
html { min-height: 100%; background: var(--bg); }
body {
  min-height: 100vh;
  margin: 0;
  font-family: ui-sans-serif, system-ui, -apple-system, BlinkMacSystemFont, "Segoe UI", sans-serif;
  color: var(--ink);
  user-select: none;
  -webkit-user-select: none;
  -webkit-touch-callout: none;
  background:
    linear-gradient(180deg, rgba(255,255,255,0.74), rgba(244,247,248,0.8)),
    var(--bg);
}
main {
  width: min(100%, 720px);
  min-height: 100vh;
  margin: 0 auto;
  padding: max(18px, env(safe-area-inset-top)) max(16px, env(safe-area-inset-right)) max(18px, env(safe-area-inset-bottom)) max(16px, env(safe-area-inset-left));
  display: grid;
  grid-template-rows: auto auto 1fr;
  gap: 16px;
}
header {
  display: flex;
  align-items: center;
  justify-content: space-between;
  gap: 12px;
}
.top-actions {
  display: flex;
  align-items: center;
  justify-content: flex-end;
  gap: 8px;
}
.brand {
  font-size: 1rem;
  font-weight: 800;
  letter-spacing: 0;
  text-transform: uppercase;
}
.status {
  display: inline-flex;
  align-items: center;
  min-height: 32px;
  padding: 0 12px;
  border: 1px solid var(--line);
  border-radius: 999px;
  background: var(--panel);
  color: var(--muted);
  font-size: 0.88rem;
  font-weight: 700;
}
.take {
  min-height: 32px;
  padding: 0 12px;
  border: 1px solid #1d272b;
  border-radius: 999px;
  background: #1d272b;
  color: #fff;
  font-size: 0.82rem;
  font-weight: 800;
  text-transform: uppercase;
  touch-action: manipulation;
  user-select: none;
  -webkit-user-select: none;
  -webkit-touch-callout: none;
}
.take:disabled {
  border-color: var(--line);
  background: var(--panel);
  color: var(--muted);
}
.take:not(:disabled):active {
  background: var(--teal-dark);
}
.status::before {
  content: "";
  width: 8px;
  height: 8px;
  margin-right: 8px;
  border-radius: 50%;
  background: var(--coral);
}
.status.online::before { background: var(--teal); }
.readouts {
  display: grid;
  grid-template-columns: repeat(2, minmax(0, 1fr));
  gap: 12px;
}
.meter {
  min-width: 0;
  padding: 16px;
  border: 1px solid var(--line);
  border-radius: 8px;
  background: var(--panel);
  box-shadow: 0 8px 28px rgba(23, 32, 35, 0.08);
}
.label {
  display: block;
  color: var(--muted);
  font-size: 0.82rem;
  font-weight: 800;
  text-transform: uppercase;
}
.value-row {
  display: flex;
  align-items: baseline;
  gap: 8px;
  margin-top: 6px;
  white-space: nowrap;
}
.value {
  font-variant-numeric: tabular-nums;
  font-size: 2.15rem;
  line-height: 1;
  font-weight: 850;
}
.unit {
  color: var(--muted);
  font-size: 0.92rem;
  font-weight: 800;
}
.pad-wrap {
  align-self: center;
  justify-self: center;
  width: min(100%, 430px);
  padding: 18px;
  border: 1px solid var(--line);
  border-radius: 8px;
  background: var(--panel);
  box-shadow: var(--shadow);
}
.pad {
  display: grid;
  grid-template-columns: repeat(3, minmax(72px, 1fr));
  grid-template-rows: repeat(3, minmax(72px, 1fr));
  gap: 10px;
  aspect-ratio: 1;
}
.dir {
  width: 100%;
  height: 100%;
  border: 0;
  border-radius: 8px;
  background: #1d272b;
  color: #fff;
  font-size: 1rem;
  font-weight: 850;
  letter-spacing: 0;
  box-shadow: inset 0 -4px 0 rgba(0,0,0,0.24);
  touch-action: none;
  user-select: none;
  -webkit-user-select: none;
  -webkit-touch-callout: none;
  -webkit-tap-highlight-color: transparent;
}
.dir:active:not(.active) {
  background: #1d272b;
  transform: none;
  box-shadow: inset 0 -4px 0 rgba(0,0,0,0.24);
}
.dir.active {
  background: #079e91;
  transform: translateY(2px);
  box-shadow:
    inset 0 -2px 0 rgba(0,0,0,0.34),
    0 0 0 4px rgba(20, 122, 115, 0.36),
    0 13px 30px rgba(20, 122, 115, 0.38);
}
.dir:disabled {
  cursor: default;
  opacity: 0.52;
}
.dir:disabled.active {
  opacity: 1;
}
.dir:focus-visible {
  outline: 3px solid var(--gold);
  outline-offset: 3px;
}
.up { grid-column: 2; grid-row: 1; }
.left { grid-column: 1; grid-row: 2; }
.right { grid-column: 3; grid-row: 2; }
.down { grid-column: 2; grid-row: 3; }
.center {
  grid-column: 2;
  grid-row: 2;
  display: grid;
  place-items: center;
  border: 1px solid var(--line);
  border-radius: 8px;
  color: var(--muted);
  font-size: 0.78rem;
  font-weight: 800;
  text-transform: uppercase;
}
@media (max-width: 430px) {
  main { gap: 12px; }
  header { align-items: flex-start; }
  .top-actions {
    flex-direction: column-reverse;
    align-items: flex-end;
  }
  .readouts { grid-template-columns: 1fr; }
  .value { font-size: 1.85rem; }
  .pad-wrap { padding: 12px; }
  .pad {
    grid-template-columns: repeat(3, minmax(64px, 1fr));
    grid-template-rows: repeat(3, minmax(64px, 1fr));
    gap: 8px;
  }
}
</style>
</head>
<body>
<main>
  <header>
    <div class="brand">ezal</div>
    <div class="top-actions">
      <button id="take" class="take" type="button" disabled>viewer</button>
      <div id="status" class="status">offline</div>
    </div>
  </header>
  <section class="readouts" aria-label="Position feedback">
    <div class="meter">
      <span class="label">A0 raw</span>
      <div class="value-row"><span id="a0" class="value">--</span><span class="unit">mV</span></div>
    </div>
    <div class="meter">
      <span class="label">A1 raw</span>
      <div class="value-row"><span id="a1" class="value">--</span><span class="unit">mV</span></div>
    </div>
  </section>
  <section class="pad-wrap" aria-label="Direction controls">
    <div class="pad">
      <button class="dir up" data-cmd="up" aria-label="Move up">UP</button>
      <button class="dir left" data-cmd="ccw" aria-label="Move counter-clockwise">CCW</button>
      <div class="center" aria-hidden="true">idle</div>
      <button class="dir right" data-cmd="cw" aria-label="Move clockwise">CW</button>
      <button class="dir down" data-cmd="down" aria-label="Move down">DOWN</button>
    </div>
  </section>
</main>
<script>
(() => {
  // Must stay below COMMAND_TIMEOUT_MS so a held control keeps its firmware lease alive.
  const refreshMs = 150;
  const status = document.getElementById("status");
  const take = document.getElementById("take");
  const a0 = document.getElementById("a0");
  const a1 = document.getElementById("a1");
  const buttons = Array.from(document.querySelectorAll(".dir"));
  const commands = {
    cw: { axis: "azimuth" },
    ccw: { axis: "azimuth" },
    up: { axis: "elevation" },
    down: { axis: "elevation" }
  };
  let ws;
  let retry = 400;
  let controller = false;
  let desired = { azimuth: null, elevation: null };
  let drive = { azimuth: null, elevation: null };
  const pointers = new Map();
  const axisPointers = { azimuth: null, elevation: null };
  let repeat = 0;

  const setStatus = (text, online) => {
    status.textContent = text;
    status.classList.toggle("online", online);
  };

  const send = (message) => {
    if (ws && ws.readyState === WebSocket.OPEN) ws.send(message);
  };

  const hasDesired = () => desired.azimuth || desired.elevation;

  const command = () => {
    const parts = [];
    if (desired.azimuth) parts.push(desired.azimuth);
    if (desired.elevation) parts.push(desired.elevation);
    return parts.length ? `drive:${parts.join("+")}` : "stop";
  };

  const syncButtons = () => {
    buttons.forEach((button) => {
      const cmd = button.dataset.cmd;
      const meta = commands[cmd];
      button.disabled = !controller;
      button.classList.toggle("active", Boolean(meta && drive[meta.axis] === cmd));
    });
  };

  const syncControl = () => {
    take.disabled = !ws || ws.readyState !== WebSocket.OPEN || controller;
    take.textContent = controller ? "controller" : "take control";
    syncButtons();
  };

  const syncRepeat = () => {
    if (controller && hasDesired() && !repeat) {
      repeat = setInterval(() => send(command()), refreshMs);
    } else if ((!controller || !hasDesired()) && repeat) {
      clearInterval(repeat);
      repeat = 0;
    }
  };

  const publish = () => {
    syncRepeat();
    if (controller) send(command());
  };

  const stopAll = () => {
    const wasActive = hasDesired();
    desired.azimuth = null;
    desired.elevation = null;
    pointers.clear();
    axisPointers.azimuth = null;
    axisPointers.elevation = null;
    syncRepeat();
    if (controller && wasActive) send("stop");
  };

  const applyControl = (message) => {
    controller = Boolean(message.controller);
    drive.azimuth = message.azimuth || null;
    drive.elevation = message.elevation || null;
    if (!controller) {
      desired.azimuth = null;
      desired.elevation = null;
      pointers.clear();
      axisPointers.azimuth = null;
      axisPointers.elevation = null;
    }
    syncRepeat();
    syncControl();
  };

  const start = (button, pointerId) => {
    if (!controller) return false;
    const cmd = button.dataset.cmd;
    const meta = commands[cmd];
    if (!meta || axisPointers[meta.axis] !== null) return false;
    axisPointers[meta.axis] = pointerId;
    pointers.set(pointerId, { axis: meta.axis, cmd });
    desired[meta.axis] = cmd;
    publish();
    return true;
  };

  const release = (pointerId) => {
    const claim = pointers.get(pointerId);
    if (!claim) return;
    pointers.delete(pointerId);
    if (axisPointers[claim.axis] === pointerId) axisPointers[claim.axis] = null;
    if (!controller) return;
    if (desired[claim.axis] === claim.cmd) desired[claim.axis] = null;
    publish();
  };

  const connect = () => {
    const proto = location.protocol === "https:" ? "wss" : "ws";
    ws = new WebSocket(`${proto}://${location.host}/ws`);
    ws.addEventListener("open", () => {
      retry = 400;
      setStatus("online", true);
      syncControl();
    });
    ws.addEventListener("message", (event) => {
      try {
        const message = JSON.parse(event.data);
        if (message.type === "position") {
          a0.textContent = message.a0_mv;
          a1.textContent = message.a1_mv;
        } else if (message.type === "control") {
          applyControl(message);
        }
      } catch (_) {}
    });
    ws.addEventListener("close", () => {
      stopAll();
      controller = false;
      drive.azimuth = null;
      drive.elevation = null;
      syncControl();
      setStatus("offline", false);
      const wait = retry;
      retry = Math.min(retry * 1.6, 5000);
      setTimeout(connect, wait);
    });
  };

  take.addEventListener("click", () => send("control:take"));
  buttons.forEach((button) => {
    button.addEventListener("pointerdown", (event) => {
      event.preventDefault();
      if (!start(button, event.pointerId)) return;
      button.setPointerCapture(event.pointerId);
    });
    const end = (event) => {
      release(event.pointerId);
    };
    button.addEventListener("pointerup", end);
    button.addEventListener("pointercancel", end);
    button.addEventListener("lostpointercapture", end);
  });
  window.addEventListener("blur", stopAll);
  window.addEventListener("beforeunload", stopAll);
  connect();
})();
</script>
</body>
</html>"#;

} // verus!
