# castzura

Streams a PipeWire screen capture to browsers over WebRTC.

`src/` is the verified library: splitting the encoder's output into NAL units,
the encoder's command line, the format negotiation, a client's session with its
RTP packets, who may connect, and the status pages. Every function there carries a
contract that Verus proves. The few calls into other crates stand behind items whose
doc comments say what is taken on trust.

`app/` is the program around it: sockets, processes, the PipeWire main loop. It
reads the status page's template from `templates/status.html` and serves `static/`.

`tests/` runs the library.
