# Moblink

Use spare devices as extra bonding connections.

A *streamer* accepts websocket connections from *relays*. A relay that answers
the streamer's challenge with the right password gets a TUN device of its own
on the streamer's side and is asked to open a UDP tunnel to the destination.
A *relay service* runs one relay per network interface and streamer.

## Layout

`src/` is the library. It decides; it does no input or output. Sockets, timers,
files and devices are the caller's: each method takes what happened as plain
values and returns what to do next. Everything in it is verified with Verus.

| Module          | What it decides                                                  |
|-----------------|------------------------------------------------------------------|
| `relay`         | the life of a relay, the messages it handles, opening a tunnel   |
| `forward`       | where packets between streamer and destination go                |
| `discovery`     | how a single relay finds its streamer                            |
| `status`        | where the state of a relay's device comes from                   |
| `relay_service` | which relays run, and what is shown of them                      |
| `service_model` | the same as plain values, and its laws                           |
| `database`      | the identities of a service's relays                             |
| `interfaces`    | which network interfaces are used                                |
| `streamer`      | which relays may connect, and the addresses they get             |
| `session`       | the conversation with a connected relay                          |
| `tunnel`        | the packets between a TUN device and a tunnel                    |
| `datagram`      | UDP datagrams in IPv4 packets                                    |
| `network`       | the network that TUN devices get their addresses from            |
| `protocol`      | the messages, and the answer to a challenge                      |
| `belaui`        | the destination as configured in belaUI                          |
| `numbers`       | the numbers of tunnels and timers                                |
| `address`, `web`, `text`, `name_table`, `utils` | values that the others work on   |

Functions whose names begin with `law_` state what holds of several functions
together, such as that a relay that knows the password is accepted, or that
there is exactly one relay per usable interface and streamer after an update.

What comes from other crates (hashes, base64, web addresses, regular
expressions, networks, packets, random numbers) stands behind small functions
marked `external_body`. Their doc comments say what is taken on trust.

`app/` is the program around the library: command line, websockets, UDP
sockets, TUN devices, multicast DNS, JSON and files. `tests/` runs the library.

## Running

```bash
moblink relay --streamer-url ws://192.168.1.2:7777 --password secret123
moblink relay-service --password secret123 --interface-name-override eth0=WAN
moblink streamer --destination-address 172.120.50.214 --destination-port 5000
```
