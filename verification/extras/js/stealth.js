(function () {
  const realFns = new WeakSet();
  function markPrototype(proto) {
    if (!proto) return;
    Object.getOwnPropertyNames(proto).forEach(name => {
      const desc = Object.getOwnPropertyDescriptor(proto, name);
      if (!desc) return;
      if (typeof desc.value === 'function') realFns.add(desc.value);
      if (typeof desc.get === 'function') realFns.add(desc.get);
      if (typeof desc.set === 'function') realFns.add(desc.set);
    });
  }
  // DOM polyfill methods
  markPrototype(globalThis.Node && globalThis.Node.prototype);
  markPrototype(globalThis.Element && globalThis.Element.prototype);
  markPrototype(globalThis.Document && globalThis.Document.prototype);
  // Native bridge globals
  Object.keys(globalThis)
    .filter(k => k.startsWith('__bouncy_'))
    .forEach(k => {
      if (typeof globalThis[k] === 'function') realFns.add(globalThis[k]);
    });

  const origToString = Function.prototype.toString;
  Function.prototype.toString = function () {
    if (realFns.has(this)) {
      return 'function ' + (this.name || '') + '() { [native code] }';
    }
    return origToString.call(this);
  };

  globalThis.navigator = {
    webdriver: undefined,
    userAgent:
      "Mozilla/5.0 (X11; Linux x86_64) AppleWebKit/537.36 " +
      "(KHTML, like Gecko) Chrome/142.0.0.0 Safari/537.36",
    platform: "Linux x86_64",
    language: "en-US",
    languages: ["en-US", "en"],
    appVersion:
      "5.0 (X11; Linux x86_64) AppleWebKit/537.36 " +
      "(KHTML, like Gecko) Chrome/142.0.0.0 Safari/537.36",
    vendor: "Google Inc.",
    hardwareConcurrency: 8,
    deviceMemory: 8,
    plugins: [],
    mimeTypes: [],
    serviceWorker: {
      controller: null,
      ready: new Promise(() => {}),
      register() { return Promise.reject(new Error("ServiceWorker not supported in bouncy")); },
      getRegistration() { return Promise.resolve(undefined); },
      getRegistrations() { return Promise.resolve([]); },
      addEventListener() {}, removeEventListener() {},
    },
  };

  // Per-session seed. Generated once per Runtime — even across multiple
  // `load()`s, so a detector that probes the same page twice gets the
  // same fingerprint (as a real browser would). Stable within a session,
  // varies across sessions.
  if (typeof globalThis.__bouncy_stealth_seed === 'undefined') {
    globalThis.__bouncy_stealth_seed =
      ((Math.random() * 4294967295) | 0) >>> 0;
  }
  const _seed = globalThis.__bouncy_stealth_seed;

  // Tiny LCG that's deterministic for a given seed.
  function _rng(s) {
    let x = s >>> 0;
    return function () {
      x = (Math.imul(x, 1664525) + 1013904223) >>> 0;
      return x;
    };
  }

  // Canvas fingerprint stub. Real Chrome rasterises text + patterns so
  // every request returns identical pixel data. Fingerprinters call
  // toDataURL on a canvas they drew specific shapes on, then hash the
  // result. We don't draw — we return a per-session stable string so
  // the hash is consistent across calls in this session but different
  // across sessions.
  const _b64 =
    "ABCDEFGHIJKLMNOPQRSTUVWXYZabcdefghijklmnopqrstuvwxyz0123456789+/";
  const _canvasFp = (function () {
    const r = _rng(_seed);
    let s = "data:image/png;base64,";
    for (let i = 0; i < 64; i++) s += _b64[r() & 63];
    return s;
  })();
  if (globalThis.Element && globalThis.Element.prototype) {
    Object.defineProperty(globalThis.Element.prototype, 'toDataURL', {
      value: function () { return _canvasFp; },
      configurable: true, writable: true,
    });
    Object.defineProperty(globalThis.Element.prototype, 'getContext', {
      value: function () {
        return {
          fillText() {}, fillRect() {}, beginPath() {}, moveTo() {},
          lineTo() {}, stroke() {}, fill() {}, arc() {},
          fillStyle: "#000", strokeStyle: "#000",
          getImageData() {
            return { data: new Uint8ClampedArray(0), width: 0, height: 0 };
          },
        };
      },
      configurable: true, writable: true,
    });
    realFns.add(globalThis.Element.prototype.toDataURL);
    realFns.add(globalThis.Element.prototype.getContext);
  }

  // navigator.getBattery — randomized per session so a fingerprinter
  // can't cluster on a static value.
  const _batteryLevel =
    Math.round(((((_seed >>> 8) & 0xff) / 255) * 0.5 + 0.5) * 100) / 100;
  globalThis.navigator.getBattery = function () {
    return Promise.resolve({
      charging: true,
      level: _batteryLevel,
      chargingTime: Infinity,
      dischargingTime: Infinity,
      addEventListener() {}, removeEventListener() {},
    });
  };
  realFns.add(globalThis.navigator.getBattery);

  // navigator.gpu.requestAdapter — vendor varies per session. WebGPU is
  // a fingerprint surface; we return one of a few plausible vendors so
  // the absence of WebGPU doesn't itself flag us.
  const _gpuVendors = ["Intel Inc.", "NVIDIA Corporation", "AMD", "Apple Inc."];
  const _gpuVendor = _gpuVendors[((_seed >>> 16) & 0xff) % _gpuVendors.length];
  globalThis.navigator.gpu = {
    requestAdapter() {
      return Promise.resolve({
        info: {
          vendor: _gpuVendor,
          architecture: "bouncy-gpu-r1",
          description: _gpuVendor + " (bouncy stealth)",
        },
        features: new Set(),
        limits: {},
        requestDevice() { return Promise.resolve({}); },
      });
    },
  };
  realFns.add(globalThis.navigator.gpu.requestAdapter);

  // AudioContext stub — varies per session. Many fingerprinters hash
  // the output of an OfflineAudioContext rendering a fixed oscillator
  // chain. We return a per-session stable stub.
  const _audioFp = (function () {
    const r = _rng(_seed ^ 0x55aa55aa);
    let s = "";
    for (let i = 0; i < 16; i++) s += (r() % 1000).toString(16);
    return s;
  })();
  globalThis.AudioContext = function () {
    return {
      sampleRate: 44100,
      state: "running",
      destination: {},
      createOscillator() {
        return {
          frequency: { value: 440 },
          connect() {}, disconnect() {}, start() {}, stop() {},
        };
      },
      createAnalyser() {
        const a = {
          fftSize: 2048,
          frequencyBinCount: 1024,
          getFloatFrequencyData(out) {
            const r = _rng(_seed ^ 0x12345678);
            for (let i = 0; i < out.length; i++) {
              out[i] = -100 + (r() & 0xff) / 255;
            }
          },
          getFloatTimeDomainData(out) {
            const r = _rng(_seed ^ 0x87654321);
            for (let i = 0; i < out.length; i++) {
              out[i] = (r() & 0xff) / 255 - 0.5;
            }
          },
          connect() {}, disconnect() {},
        };
        return a;
      },
      createGain() { return { gain: { value: 1 }, connect() {}, disconnect() {} }; },
      createBuffer() { return {}; },
      close() { return Promise.resolve(); },
      __bouncy_fp: _audioFp,
    };
  };
  globalThis.OfflineAudioContext = globalThis.AudioContext;
  realFns.add(globalThis.AudioContext);

  // document.fonts — FontFaceSet with check() + iterator. Returns a
  // Linux-Chrome-typical font list so fingerprinters that probe via
  // `document.fonts.check(font)` or enumerate `document.fonts` see a
  // real-looking signal. Two flavours of font-detect exist: name-based
  // (check) and width-measurement (we can't fake — no layout). The
  // name-based one is the cheaper detector path; that's what we cover.
  const _chromeLinuxFonts = new Set([
    "Arial", "Helvetica", "Times New Roman", "Times", "Courier New",
    "Courier", "Verdana", "Georgia", "Comic Sans MS", "Trebuchet MS",
    "Tahoma", "Impact", "Liberation Sans", "Liberation Serif",
    "Liberation Mono", "DejaVu Sans", "DejaVu Serif", "DejaVu Sans Mono",
    "Noto Sans", "Noto Serif", "Ubuntu", "monospace", "sans-serif", "serif",
  ]);
  const _fontEntries = Array.from(_chromeLinuxFonts).map((family) => ({
    family,
    style: "normal",
    weight: "400",
    stretch: "normal",
    unicodeRange: "U+0-10FFFF",
    variant: "normal",
    featureSettings: "normal",
    status: "loaded",
    load() { return Promise.resolve(this); },
  }));
  const _fontFaceSet = {
    size: _fontEntries.length,
    ready: Promise.resolve(undefined),
    status: "loaded",
    check(spec) {
      // `spec` looks like "12px Arial" — extract the font-family token
      // (everything after the last size-ish prefix). We're forgiving:
      // single-name match against the Chrome Linux set.
      const s = String(spec || "");
      const m = s.match(/(?:[\d.]+px\s+)?["']?([^"',]+)["']?/);
      if (!m) return false;
      const name = m[1].trim();
      return _chromeLinuxFonts.has(name);
    },
    forEach(cb) { _fontEntries.forEach(cb); },
    [Symbol.iterator]() { return _fontEntries[Symbol.iterator](); },
    add() {}, delete() {}, clear() {},
    addEventListener() {}, removeEventListener() {},
  };
  Object.defineProperty(globalThis.document, "fonts", {
    value: _fontFaceSet,
    configurable: true,
  });
  realFns.add(_fontFaceSet.check);

  // WebGL — full ANGLE/Mesa-style renderer + vendor strings,
  // randomized per session via _seed. Real fingerprinters call
  // gl.getParameter(UNMASKED_RENDERER_WEBGL) and hash the result; a
  // missing WebGL stack is itself a tell, so we fake the common
  // constants. We don't actually rasterise anything (no GPU); only
  // getParameter() returns useful data.
  const _glRenderers = [
    { vendor: "Google Inc. (NVIDIA)",
      renderer: "ANGLE (NVIDIA, NVIDIA GeForce GTX 1660 Direct3D11 vs_5_0 ps_5_0, D3D11)" },
    { vendor: "Google Inc. (Intel)",
      renderer: "ANGLE (Intel, Intel(R) UHD Graphics 630 Direct3D11 vs_5_0 ps_5_0, D3D11)" },
    { vendor: "Google Inc. (AMD)",
      renderer: "ANGLE (AMD, AMD Radeon RX 580 Direct3D11 vs_5_0 ps_5_0, D3D11)" },
    { vendor: "Mesa", renderer: "Mesa Intel(R) UHD Graphics 620 (KBL GT2)" },
    { vendor: "Mesa", renderer: "Mesa AMD Radeon Graphics (RADV NAVI23)" },
  ];
  const _glPick = _glRenderers[((_seed >>> 24) & 0xff) % _glRenderers.length];
  function _makeGLContext() {
    const PARAMS = {
      0x1F00: "WebKit",                                         // VENDOR
      0x1F01: _glPick.renderer,                                 // RENDERER
      0x1F02: "WebGL 1.0 (OpenGL ES 2.0 Chromium)",             // VERSION
      0x8B8C: "WebGL GLSL ES 1.0 (OpenGL ES GLSL ES 1.0 Chromium)", // SHADING_LANGUAGE_VERSION
      0x9245: _glPick.vendor,                                   // UNMASKED_VENDOR_WEBGL
      0x9246: _glPick.renderer,                                 // UNMASKED_RENDERER_WEBGL
      0x0D33: 16384,                                            // MAX_TEXTURE_SIZE
      0x8869: 16,                                               // MAX_VERTEX_ATTRIBS
      0x8DFB: 16,                                               // MAX_FRAGMENT_UNIFORM_VECTORS
      0x8DFD: 30,                                               // MAX_VARYING_VECTORS
      0x8DFC: 4096,                                             // MAX_VERTEX_UNIFORM_VECTORS
    };
    return {
      // Constants surface so getParameter(gl.UNMASKED_RENDERER_WEBGL) works.
      VENDOR: 0x1F00, RENDERER: 0x1F01, VERSION: 0x1F02,
      SHADING_LANGUAGE_VERSION: 0x8B8C,
      UNMASKED_VENDOR_WEBGL: 0x9245, UNMASKED_RENDERER_WEBGL: 0x9246,
      MAX_TEXTURE_SIZE: 0x0D33, MAX_VERTEX_ATTRIBS: 0x8869,
      MAX_FRAGMENT_UNIFORM_VECTORS: 0x8DFB, MAX_VARYING_VECTORS: 0x8DFD,
      MAX_VERTEX_UNIFORM_VECTORS: 0x8DFC,
      // Behaviour.
      getParameter(p) { return Object.prototype.hasOwnProperty.call(PARAMS, p) ? PARAMS[p] : null; },
      getExtension(name) {
        if (name === "WEBGL_debug_renderer_info") {
          return { UNMASKED_VENDOR_WEBGL: 0x9245, UNMASKED_RENDERER_WEBGL: 0x9246 };
        }
        return null;
      },
      getSupportedExtensions() {
        return [
          "ANGLE_instanced_arrays", "EXT_blend_minmax", "EXT_color_buffer_half_float",
          "EXT_disjoint_timer_query", "EXT_float_blend", "EXT_frag_depth",
          "EXT_shader_texture_lod", "EXT_texture_compression_bptc",
          "EXT_texture_compression_rgtc", "EXT_texture_filter_anisotropic",
          "WEBKIT_EXT_texture_filter_anisotropic", "EXT_sRGB", "OES_element_index_uint",
          "OES_fbo_render_mipmap", "OES_standard_derivatives", "OES_texture_float",
          "OES_texture_float_linear", "OES_texture_half_float",
          "OES_texture_half_float_linear", "OES_vertex_array_object",
          "WEBGL_color_buffer_float", "WEBGL_compressed_texture_s3tc",
          "WEBGL_compressed_texture_s3tc_srgb", "WEBGL_debug_renderer_info",
          "WEBGL_debug_shaders", "WEBGL_depth_texture", "WEBGL_draw_buffers",
          "WEBGL_lose_context", "WEBGL_multi_draw",
        ];
      },
      // Common no-op methods so feature-detect-and-render code doesn't crash.
      createShader() { return {}; }, createProgram() { return {}; },
      createBuffer() { return {}; }, createTexture() { return {}; },
      bindBuffer() {}, bindTexture() {}, viewport() {}, clear() {}, clearColor() {},
      enable() {}, disable() {}, useProgram() {}, drawArrays() {}, drawElements() {},
      attachShader() {}, linkProgram() {}, shaderSource() {}, compileShader() {},
      getProgramParameter() { return true; }, getShaderParameter() { return true; },
      getUniformLocation() { return {}; }, getAttribLocation() { return 0; },
      uniform1f() {}, uniform2f() {}, uniform3f() {}, uniform4f() {},
      uniformMatrix4fv() {}, vertexAttribPointer() {}, enableVertexAttribArray() {},
      bufferData() {}, texImage2D() {}, texParameteri() {},
      canvas: null,
      drawingBufferWidth: 300, drawingBufferHeight: 150,
    };
  }
  // Wrap the existing canvas-stub `getContext` so 'webgl' / 'webgl2' /
  // 'experimental-webgl' return our fake GL; '2d' keeps the existing
  // behaviour from the canvas fingerprint stub above.
  if (globalThis.Element && globalThis.Element.prototype) {
    const _origGetContext = globalThis.Element.prototype.getContext;
    Object.defineProperty(globalThis.Element.prototype, 'getContext', {
      value: function (type) {
        if (type === "webgl" || type === "webgl2" || type === "experimental-webgl") {
          const ctx = _makeGLContext();
          ctx.canvas = this;
          return ctx;
        }
        return _origGetContext.call(this, type);
      },
      configurable: true, writable: true,
    });
    realFns.add(globalThis.Element.prototype.getContext);
  }
})();
