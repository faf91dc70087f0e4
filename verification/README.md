# amble

Control of Amaran and Aputure lights over a Bluetooth mesh proxy, verified with Verus.

```sh
amaran on [light]
amaran off [light]
amaran brightness <0-100> [light]
amaran cct <br> <kelvin> [gm] [light]
amaran hsi <br> <hue> <sat> [light]
amaran rgb <r> <g> <b> [brightness] [light]
amaran lights
amaran scan
amaran setup
amaran start          # launch daemon
amaran stop           # stop daemon
```

`amaran setup` imports the keys from the Amaran Desktop database
(`~/Library/Application Support/amaran Desktop`) or asks for them, and saves
the configuration as `~/.config/amble/lights.json`, or wherever `AMBLE_CONFIG`
says. The commands `status`, `battery` and `query` are passed on to the daemon,
which does not know them.

The components of a colour go from 0 to 255 and are scaled to the thousandths
that the emitters take: 255 is full scale.

## Layout

- `src/` is the library. All that is computed or decided is there, with its
  contract: payloads, keys, messages, the session, the choice of a device,
  requests and replies, the setup dialogue. Public proof functions named
  `law_...` state what holds across functions.
- `app/` is the program around it: Bluetooth, sockets, HTTP, MQTT, the database
  and the terminal.
- `tests/` runs the library with the real cryptography and JSON crates.

## What is trusted

AES, AES-CCM, hexadecimal decoding, JSON, UUID texts and random numbers come
from other crates; case mapping, white space and the comparison of strings from
the standard library. Each of these stands behind one function whose
documentation says what is taken to hold of it.
