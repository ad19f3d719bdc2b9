//! The text of the loading script.
//!
//! The script that the generator emits is written here in its parts: what
//! stands before the bytes of the module, the parts between the bytes and
//! the field names, and what stands after the field names.

use vstd::prelude::*;

verus! {

/// The script up to the bytes of the module.
pub const SCRIPT_HEAD: &'static str = "
(function() {
    try {
        console.log('WASM: Starting module load');

        // WASM module as direct byte array (most reliable method)
        const wasmBytes = new Uint8Array([";

/// The script from the end of the module's bytes to the start of the exports: the import object and the instantiation.
pub const SCRIPT_INSTANTIATE: &'static str = "]);

        console.log('WASM: Instantiating module (' + wasmBytes.length + ' bytes)...');

        // Build import object with all global functions automatically
        const importObject = {};

        // Collect all callable globals
        for (const key in window) {
            try {
                if (typeof window[key] === 'function' && key !== 'window') {
                    // Add to 'env' namespace (standard convention)
                    if (!importObject.env) {
                        importObject.env = {};
                    }
                    importObject.env[key] = window[key];
                }
            } catch (e) {
                // Skip inaccessible properties
            }
        }

        console.log('WASM: Available imports:', Object.keys(importObject.env || {}).length, 'functions');

        // Instantiate directly from byte array with imports
        WebAssembly.instantiate(wasmBytes, importObject)
            .then(function(result) {
                console.log('WASM: Module instantiated successfully');

                // Export all WASM functions to window
                if (result.instance && result.instance.exports) {
";

/// The helper that reads a string of the module as text.
pub const SCRIPT_STRING_FROM_MODULE: &'static str = "                    // Helper to convert WASM string array (array i8, UTF-8) to JS string
                    const wasmStringToJs = function(wasmStr) {
                        if (!wasmStr || typeof wasmStr !== 'object') {
                            return null;
                        }

                        // Try to read array as UTF-8 bytes
                        try {
                            const bytes = [];
                            let i = 0;
                            while (true) {
                                const byte = wasmStr[i];
                                if (byte === undefined) break;
                                bytes.push(byte);
                                i++;
                                if (i > 10000) break; // Safety limit
                            }

                            // Decode UTF-8 bytes to string
                            const decoder = new TextDecoder('utf-8');
                            return decoder.decode(new Uint8Array(bytes));
                        } catch (e) {
                            return null;
                        }
                    };

";

/// The helper that writes text as a string of the module.
pub const SCRIPT_STRING_TO_MODULE: &'static str = "                    // Helper to convert JS string to WASM string array (array i8, UTF-8)
                    const jsStringToWasm = function(jsStr) {
                        if (typeof jsStr !== 'string') {
                            return jsStr; // Not a string, return as-is
                        }

                        // Encode JS string to UTF-8 bytes
                        const encoder = new TextEncoder();
                        const bytes = encoder.encode(jsStr);

                        // Create WASM string array using newString and string_set_byte
                        if (window._wasmExports && window._wasmExports.newString && window._wasmExports.string_set_byte) {
                            try {
                                const wasmStr = window._wasmExports.newString(bytes.length);
                                for (let i = 0; i < bytes.length; i++) {
                                    window._wasmExports.string_set_byte(wasmStr, i, bytes[i]);
                                }
                                return wasmStr;
                            } catch (e) {
                                console.warn('jsStringToWasm: Failed to create WASM string:', e);
                            }
                        }

                        // No constructor found - return bytes as fallback
                        console.warn('jsStringToWasm: No WASM string constructor found');
                        return bytes;
                    };

";

/// The wrapper for struct values, up to its handlers.
pub const SCRIPT_WRAP_OPEN: &'static str = "                    // Helper to wrap GC objects with toString support
                    const wrapGcObject = function(obj) {
                        if (!obj || typeof obj !== 'object') {
                            return obj;
                        }

                        // Check if already wrapped
                        if (obj.__wasmGcWrapped) {
                            return obj;
                        }

                        // Check if this is a string array (has numeric indices that are UTF-8 bytes)
                        const isStringArray = function() {
                            try {
                                // Check first few elements - if they're all valid bytes (0-255), it's likely a string
                                const first = obj[0];
                                if (first !== undefined && typeof first === 'number' && first >= 0 && first <= 255) {
                                    return true;
                                }
                            } catch (e) {}
                            return false;
                        };

                        // Get type info (name and fields) for this struct
                        const getTypeInfo = function() {
                            if (window.__wasmFieldNames && window.__wasmFieldNames.default) {
                                return window.__wasmFieldNames.default;
                            }
                            return null;
                        };

";

/// The handler that renders a wrapped value as text.
pub const SCRIPT_WRAP_TO_STRING: &'static str = "                        // Create proxy with toString and Symbol.toPrimitive handlers
                        return new Proxy(obj, {
                            get(target, prop) {
                                // Handle toString
                                if (prop === 'toString') {
                                    return function() {
                                        // Check if this is a string array
                                        if (isStringArray()) {
                                            const jsStr = wasmStringToJs(target);
                                            return jsStr !== null ? jsStr : '[WasmString]';
                                        }

                                        // Try to get field values for display
                                        let fields = [];
                                        const typeInfo = getTypeInfo();
                                        const typeName = (typeInfo && typeInfo.typeName) ? typeInfo.typeName : 'WasmGcStruct';
                                        const fieldNames = (typeInfo && typeInfo.fields) ? typeInfo.fields : null;

                                        try {
                                            if (fieldNames) {
                                                // Use field names if available
                                                for (let i = 0; i < fieldNames.length; i++) {
                                                    const val = target[i];
                                                    if (val !== undefined) {
                                                        // Convert nested string arrays
                                                        const displayVal = (val && typeof val === 'object' && val[0] !== undefined && typeof val[0] === 'number')
                                                            ? '\"' + (wasmStringToJs(val) || '') + '\"'
                                                            : val;
                                                        fields.push(fieldNames[i] + '=' + displayVal);
                                                    }
                                                }
                                            } else {
                                                // Fallback to numeric indices
                                                if (target[0] !== undefined) {
                                                    fields.push('0=' + target[0]);
                                                }
                                            }
                                        } catch (e) {
                                            // Ignore errors
                                        }

                                        if (fields.length > 0) {
                                            return typeName + '{' + fields.join(', ') + '}';
                                        }
                                        return typeName + '{}';
                                    };
";

/// The handler that converts a wrapped value to a primitive.
pub const SCRIPT_WRAP_TO_PRIMITIVE: &'static str = "                                } else if (prop === Symbol.toPrimitive) {
                                    // Handle Symbol.toPrimitive for string conversion
                                    return function(hint) {
                                        if (hint === 'string' || hint === 'default') {
                                            // Check if this is a string array
                                            if (isStringArray()) {
                                                const jsStr = wasmStringToJs(target);
                                                return jsStr !== null ? jsStr : '[WasmString]';
                                            }

                                            let fields = [];
                                            const typeInfo = getTypeInfo();
                                            const typeName = (typeInfo && typeInfo.typeName) ? typeInfo.typeName : 'WasmGcStruct';
                                            const fieldNames = (typeInfo && typeInfo.fields) ? typeInfo.fields : null;

                                            try {
                                                if (fieldNames) {
                                                    for (let i = 0; i < fieldNames.length; i++) {
                                                        const val = target[i];
                                                        if (val !== undefined) {
                                                            const displayVal = (val && typeof val === 'object' && val[0] !== undefined && typeof val[0] === 'number')
                                                                ? '\"' + (wasmStringToJs(val) || '') + '\"'
                                                                : val;
                                                            fields.push(fieldNames[i] + '=' + displayVal);
                                                        }
                                                    }
                                                } else {
                                                    if (target[0] !== undefined) {
                                                        fields.push('0=' + target[0]);
                                                    }
                                                }
                                            } catch (e) {}

                                            if (fields.length > 0) {
                                                return typeName + '{' + fields.join(', ') + '}';
                                            }
                                            return typeName + '{}';
                                        }
                                        // For number hint, return NaN to avoid conversion errors
                                        return NaN;
                                    };
";

/// The handler that reads a field of a wrapped value by name or index.
pub const SCRIPT_WRAP_GET: &'static str = "                                } else if (prop === Symbol.toStringTag) {
                                    const typeInfo = getTypeInfo();
                                    return (typeInfo && typeInfo.typeName) ? typeInfo.typeName : 'WasmGcStruct';
                                } else if (prop === '__wasmGcWrapped') {
                                    return true;
                                }

                                // Try to map field name to index
                                if (typeof prop === 'string') {
                                    const typeInfo = getTypeInfo();
                                    const fieldNames = (typeInfo && typeInfo.fields) ? typeInfo.fields : null;
                                    if (fieldNames) {
                                        const index = fieldNames.indexOf(prop);
                                        if (index !== -1) {
                                            const value = target[index];
                                            // Auto-convert string arrays to JS strings
                                            if (value && typeof value === 'object' && value[0] !== undefined && typeof value[0] === 'number' && value[0] >= 0 && value[0] <= 255) {
                                                return wasmStringToJs(value) || value;
                                            }
                                            return value;
                                        }
                                    }
                                }

                                // Handle numeric property access
                                const value = target[prop];
                                // Auto-convert string arrays to JS strings
                                if (value && typeof value === 'object' && value[0] !== undefined && typeof value[0] === 'number' && value[0] >= 0 && value[0] <= 255) {
                                    return wasmStringToJs(value) || value;
                                }
                                return value;
                            },
";

/// The handler that writes a field of a wrapped value.
pub const SCRIPT_WRAP_SET: &'static str = "                            set(target, prop, value) {
                                // Convert JS string to WASM string array if needed
                                let wasmValue = value;
                                if (typeof value === 'string' && typeof jsStringToWasm !== 'undefined') {
                                    wasmValue = jsStringToWasm(value);
                                }

                                // Convert numeric index or string number to field name
                                let fieldName = prop;
                                const propNum = typeof prop === 'number' ? prop : parseInt(prop, 10);
                                if (!isNaN(propNum)) {
                                    const typeInfo = getTypeInfo();
                                    const fieldNames = (typeInfo && typeInfo.fields) ? typeInfo.fields : null;
                                    if (fieldNames && propNum >= 0 && propNum < fieldNames.length) {
                                        fieldName = fieldNames[propNum];
                                    }
                                }

                                // Try to set using WASM setter function
                                if (typeof WasmGcStructSet !== 'undefined') {
                                    WasmGcStructSet(target, fieldName, wasmValue);
                                } else {
                                    target[prop] = wasmValue;
                                }
                                return true;

                                // TODO: Enforce field mutability
                                // Currently allows modification of immutable WASM fields from JS.
                                // To fix: parse type section to track which fields are mutable,
                                // and throw TypeError when attempting to modify immutable fields.
                                // For now: \"It's a feature, not a bug!\" ðŸ˜„
                            }
                        });
                    };

";

/// The export of the module's functions, globals and other items.
pub const SCRIPT_EXPORTS: &'static str = "                    // Store all exports in _wasmExports for getter/setter functions
                    window._wasmExports = result.instance.exports;

                    for (const name in result.instance.exports) {
                        const exported = result.instance.exports[name];

                        if (typeof exported === 'function') {
                            // Wrap function to auto-wrap GC object return values
                            window[name] = function(...args) {
                                const result = exported.apply(this, args);
                                return wrapGcObject(result);
                            };
                            console.log('WASM: Exported function ' + name);
                        } else if (exported instanceof WebAssembly.Global) {
                            // For globals containing GC objects, wrap the value and expose directly
                            const globalValue = exported.value;
                            if (globalValue && typeof globalValue === 'object') {
                                // This is a GC object (struct, array, etc.) - wrap and export the value directly
                                window[name] = wrapGcObject(globalValue);
                                // Also store the raw Global for advanced use (mutable globals)
                                window[name + '_global'] = exported;
                                console.log('WASM: Exported GC global ' + name + ' = WasmGcStruct');
                            } else {
                                // Simple global (i32, f64, etc.) - export the Global object with .value property
                                window[name] = exported;
                                console.log('WASM: Exported global ' + name + ' = ' + exported.value);
                            }
                        } else {
                            // Export other types (Memory, Table, etc.)
                            window[name] = exported;
                            console.log('WASM: Exported ' + name);
                        }
                    }

";

/// The helper that renders a struct by common field names.
pub const SCRIPT_DISPLAY: &'static str = "                    // Helper function to display GC struct contents
                    window.WasmGcStructDisplay = function(structObj, structName) {
                        if (!structObj || typeof structObj !== 'object') {
                            return String(structObj);
                        }

                        structName = structName || 'box';
                        let fields = [];

                        // Try common field names
                        const commonFields = ['val', 'value', 'data', 'x', 'y', 'z', 'width', 'height'];
                        for (const fieldName of commonFields) {
                            if (typeof WasmGcStructGet !== 'undefined') {
                                try {
                                    const fieldValue = WasmGcStructGet(structObj, fieldName);
                                    if (fieldValue !== undefined) {
                                        fields.push(fieldName + '=' + fieldValue);
                                    }
                                } catch (e) {
                                    // Field doesn't exist, skip
                                }
                            }
                        }

                        if (fields.length > 0) {
                            return structName + '{' + fields.join(', ') + '}';
                        } else {
                            return structName + '{}';
                        }
                    };

";

/// The accessor that reads a struct field through an exported getter.
pub const SCRIPT_GETTER: &'static str = "                    // Create GC struct field accessors
                    // For WASM GC structs, we need getter functions that call struct.get
                    // These are typically exported as 'get_field_X' functions by WASM
                    window.WasmGcStructGet = function(structObj, fieldIndex) {
                        // Attempt to extract field value from GC struct
                        // Look for exported getter functions following common patterns
                        const getterName = 'get_' + fieldIndex;
                        if (window._wasmExports && window._wasmExports[getterName]) {
                            try {
                                return window._wasmExports[getterName](structObj);
                            } catch (e) {
                                console.warn('WasmGcStructGet: Getter', getterName, 'failed:', e);
                            }
                        }

                        // Fallback: try numeric field access patterns
                        const fieldGetter = 'struct_get_' + fieldIndex;
                        if (window._wasmExports && window._wasmExports[fieldGetter]) {
                            try {
                                return window._wasmExports[fieldGetter](structObj);
                            } catch (e) {
                                console.warn('WasmGcStructGet: Getter', fieldGetter, 'failed:', e);
                            }
                        }

                        // Try property access as last resort (for externref wrapping)
                        if (structObj && typeof structObj === 'object') {
                            if (structObj[fieldIndex] !== undefined) {
                                return structObj[fieldIndex];
                            }
                            const fieldName = 'field' + fieldIndex;
                            if (structObj[fieldName] !== undefined) {
                                return structObj[fieldName];
                            }
                        }

                        console.warn('WasmGcStructGet: Unable to access field', fieldIndex, 'on', structObj);
                        return undefined;
                    };

";

/// The accessor that writes a struct field through an exported setter.
pub const SCRIPT_SETTER: &'static str = "                    // Setter function for WASM GC struct fields
                    window.WasmGcStructSet = function(structObj, fieldIndex, value) {
                        // Look for exported setter functions following common patterns
                        const setterName = 'set_' + fieldIndex;
                        if (window._wasmExports && window._wasmExports[setterName]) {
                            try {
                                return window._wasmExports[setterName](structObj, value);
                            } catch (e) {
                                console.warn('WasmGcStructSet: Setter', setterName, 'failed:', e);
                            }
                        }

                        // Fallback: try numeric field access patterns
                        const fieldSetter = 'struct_set_' + fieldIndex;
                        if (window._wasmExports && window._wasmExports[fieldSetter]) {
                            try {
                                return window._wasmExports[fieldSetter](structObj, value);
                            } catch (e) {
                                console.warn('WasmGcStructSet: Setter', fieldSetter, 'failed:', e);
                            }
                        }

                        console.warn('WasmGcStructSet: Unable to set field', fieldIndex, 'on', structObj);
                        return undefined;
                    };

";

/// The list of the exported getters, and the start of the field names.
pub const SCRIPT_FIELD_NAMES: &'static str = "                    // Helper to list available getter functions
                    window.WasmListGetters = function() {
                        const getters = [];
                        for (const name in window._wasmExports) {
                            if (name.startsWith('get_') || name.startsWith('struct_get_')) {
                                getters.push(name);
                            }
                        }
                        return getters;
                    };

                    // Install field name mappings
                    window.__wasmFieldNames = ";

/// The script after the field names: it announces that the module is
/// loaded.
pub const SCRIPT_TAIL: &'static str = ";
                    console.log('WASM: Field names installed:', window.__wasmFieldNames);

                    console.log('WASM: GC struct accessors installed');
                    console.log('WASM: Available getters:', window.WasmListGetters());
                }

                console.log('WASM module loaded successfully');
                // Dispatch custom event so pages can listen for WASM completion
                window.dispatchEvent(new Event('wasmloaded'));
            })
            .catch(function(e) {
                console.error('WASM instantiation error:', e);
            });

    } catch (e) {
        console.error('WASM error:', e);
    }
})();
";

} // verus!
